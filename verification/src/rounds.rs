//! A managed request from its first model round to its last: the order in which a round is begun,
//! answered, counted, and followed by its calls or by the end.

use vstd::prelude::*;
use vstd::string::*;
use crate::backend::{CallView, ToolBatchMetadata, ToolInfrastructureError};
use crate::budget::{BudgetView, RuntimeBudget};
use crate::calls::{
    collected, collected_result, function_call_views, CollectedToolCalls, CollectedView,
    FunctionCall, FunctionCallView,
};
use crate::conversation::{ManagedToolState, StateView};
use crate::direct::searches_reserved;
use crate::error::{ErrorView, ToolRuntimeError};
use crate::json::{Json, JsonView};
use crate::messages::calls::{
    blocks_collected, history_message, ran_out, with_messages_round,
};
use crate::messages::mapper::{PreparedMessagesRuntime, PreparedMessagesView};
use crate::messages::stream::blocks_of;
use crate::messages::usage::{
    messages_usage_added, messages_usage_json, MessagesUsage, MessagesUsageView,
};
use crate::operations::{batch_refused, BackendOperation};
use crate::registry::{optional_json, RegistryView};
use crate::request::{tool_names, ModelRequest, RequestView};
use crate::runner::{
    begin_round, finalize, finalize_messages, finish_runtime_error, settle_calls, settle_round,
    ManagedFormat, MessagesRuntimeSummary, NextStep, NextView, RoundEnd, RoundEndView, RunError,
    RunErrorView, ToolRuntimeSummary,
};
use crate::runtime::{with_round, PreparedToolRuntime, PreparedView};
use crate::streaming::finalized;
use crate::telemetry::{elapsed, Recorded};
use crate::time::{Duration, Instant};
use crate::usage::{usage_json, usage_sum, Usage};
use crate::json;

verus! {

/// The half of a managed request that depends on its wire format.
pub trait ManagedConversation: Sized {
    /// What a model round gave.
    type Round;

    /// What the client is given in the end.
    type Final;

    type Model;

    type RoundModel;

    /// What the conversation holds.
    spec fn model(&self) -> Self::Model;

    spec fn round_model(round: &Self::Round) -> Self::RoundModel;

    /// What the model is asked.
    spec fn asked(model: Self::Model) -> RequestView;

    /// What its calls are allowed.
    spec fn permitted(model: Self::Model) -> StateView;

    spec fn wire_format() -> ManagedFormat;

    /// The conversation once the tokens of a round are counted.
    spec fn counted(model: Self::Model, round: Self::RoundModel) -> Self::Model;

    /// What the model wants run.
    spec fn collected(model: Self::Model, round: Self::RoundModel) -> Result<
        CollectedView,
        ErrorView,
    >;

    /// The conversation once a round and what its calls gave are part of its history.
    spec fn appended(
        model: Self::Model,
        round: Self::RoundModel,
        outputs: Seq<JsonView>,
    ) -> Self::Model;

    /// Whether this is what the client is given after this last round.
    spec fn concluded(
        model: Self::Model,
        round: Self::RoundModel,
        budget: BudgetView,
        last: Self::Final,
    ) -> bool;

    fn state(&self) -> (r: &ManagedToolState)
        ensures
            r@ == Self::permitted(self.model()),
    ;

    fn model_request(&self) -> (r: &ModelRequest)
        ensures
            r@ == Self::asked(self.model()),
    ;

    fn format(&self) -> (r: ManagedFormat)
        ensures
            r == Self::wire_format(),
    ;

    fn accumulate_usage(&mut self, round: &Self::Round)
        ensures
            final(self).model() == Self::counted(old(self).model(), Self::round_model(round)),
    ;

    fn collect_model_calls(&self, round: &Self::Round) -> (r: Result<
        CollectedToolCalls,
        ToolRuntimeError,
    >)
        ensures
            collected_result(r) == Self::collected(self.model(), Self::round_model(round)),
    ;

    fn append_round_history(&mut self, round: Self::Round, outputs: Vec<Json>)
        ensures
            final(self).model() == Self::appended(
                old(self).model(),
                Self::round_model(&round),
                json::views(outputs@),
            ),
    ;

    fn finalize(self, round: Self::Round, budget: &RuntimeBudget) -> (r: Self::Final)
        ensures
            Self::concluded(self.model(), Self::round_model(&round), budget@, r),
    ;
}

/// What a model round gave over the Responses format.
pub struct ResponsesRound {
    pub response: Json,
    pub usage: Option<Usage>,
    pub calls: Vec<FunctionCall>,
    pub raw_output: Vec<Json>,
}

pub struct ResponsesRoundView {
    pub response: JsonView,
    pub usage: Option<Usage>,
    pub calls: Seq<FunctionCallView>,
    pub raw_output: Seq<JsonView>,
}

/// What the client is given in the end over the Responses format.
pub struct ManagedFinalResponse {
    pub response: Json,
    pub raw_output: Vec<Json>,
    pub summary: ToolRuntimeSummary,
}

/// The token counts so far, once those of a round that may report none are added.
pub open spec fn usage_added(usage: Option<Usage>, round: Option<Usage>) -> Option<Usage> {
    match round {
        Some(round) => Some(usage_sum(usage, round)),
        None => usage,
    }
}

impl ManagedConversation for PreparedToolRuntime {
    type Round = ResponsesRound;

    type Final = ManagedFinalResponse;

    type Model = PreparedView;

    type RoundModel = ResponsesRoundView;

    open spec fn model(&self) -> PreparedView {
        self@
    }

    open spec fn round_model(round: &ResponsesRound) -> ResponsesRoundView {
        ResponsesRoundView {
            response: round.response@,
            usage: round.usage,
            calls: function_call_views(round.calls@),
            raw_output: json::views(round.raw_output@),
        }
    }

    open spec fn asked(model: PreparedView) -> RequestView {
        model.request
    }

    open spec fn permitted(model: PreparedView) -> StateView {
        model.state
    }

    open spec fn wire_format() -> ManagedFormat {
        ManagedFormat::Responses
    }

    open spec fn counted(model: PreparedView, round: ResponsesRoundView) -> PreparedView {
        PreparedView { usage: usage_added(model.usage, round.usage), ..model }
    }

    open spec fn collected(model: PreparedView, round: ResponsesRoundView) -> Result<
        CollectedView,
        ErrorView,
    > {
        collected(
            model.state,
            tool_names(model.request.tools(), Some("function"@)),
            round.calls,
        )
    }

    open spec fn appended(
        model: PreparedView,
        round: ResponsesRoundView,
        outputs: Seq<JsonView>,
    ) -> PreparedView {
        with_round(model, round.raw_output, outputs)
    }

    open spec fn concluded(
        model: PreparedView,
        round: ResponsesRoundView,
        budget: BudgetView,
        last: ManagedFinalResponse,
    ) -> bool {
        &&& last.response@ == finalized(
            round.response,
            match model.usage {
                Some(usage) => Some(usage_json(usage)),
                None => None,
            },
            model.client_tools,
        )
        &&& json::views(last.raw_output@) == round.raw_output
        &&& last.summary.usage == model.usage
        &&& last.summary.rounds == budget.rounds
        &&& last.summary.tool_calls == budget.tool_calls
        &&& last.summary.client_streaming == model.client_streaming
        &&& last.summary.include_obfuscation == model.include_obfuscation
        &&& optional_json(last.summary.client_tools) == model.client_tools
    }

    fn state(&self) -> &ManagedToolState {
        &self.state
    }

    fn model_request(&self) -> &ModelRequest {
        &self.canonical_request
    }

    fn format(&self) -> ManagedFormat {
        ManagedFormat::Responses
    }

    fn accumulate_usage(&mut self, round: &ResponsesRound) {
        PreparedToolRuntime::accumulate_usage(self, round.usage);
    }

    fn collect_model_calls(&self, round: &ResponsesRound) -> Result<
        CollectedToolCalls,
        ToolRuntimeError,
    > {
        PreparedToolRuntime::collect_model_calls(self, &round.calls)
    }

    fn append_round_history(&mut self, round: ResponsesRound, outputs: Vec<Json>) {
        PreparedToolRuntime::append_round_history(self, round.raw_output, outputs);
    }

    fn finalize(self, round: ResponsesRound, budget: &RuntimeBudget) -> ManagedFinalResponse {
        let (response, summary) = finalize(round.response, self, budget);
        ManagedFinalResponse { response, raw_output: round.raw_output, summary }
    }
}

/// What a model round gave over the Messages format.
pub struct MessagesRound {
    pub message: Json,
    pub usage: MessagesUsage,
}

pub struct MessagesRoundView {
    pub message: JsonView,
    pub usage: MessagesUsageView,
}

/// Takes the blocks out of a message.
fn take_blocks(message: Json) -> (r: Vec<Json>)
    ensures
        json::views(r@) == blocks_of(message@),
{
    let mut message = message;
    match message.take("content") {
        Some(Json::Array(blocks)) => {
            assert(Json::Array(blocks)@->Array_0 =~= json::views(blocks@));
            blocks
        },
        _ => {
            let none: Vec<Json> = Vec::new();
            assert(json::views(none@) =~= Seq::empty());
            none
        },
    }
}

/// What the client is given in the end over the Messages format.
pub struct ManagedMessagesResponse {
    pub message: Json,
    pub summary: MessagesRuntimeSummary,
}

impl ManagedConversation for PreparedMessagesRuntime {
    type Round = MessagesRound;

    type Final = ManagedMessagesResponse;

    type Model = PreparedMessagesView;

    type RoundModel = MessagesRoundView;

    open spec fn model(&self) -> PreparedMessagesView {
        self@
    }

    open spec fn round_model(round: &MessagesRound) -> MessagesRoundView {
        MessagesRoundView {
            message: round.message@,
            usage: round.usage@,
        }
    }

    open spec fn asked(model: PreparedMessagesView) -> RequestView {
        model.request
    }

    open spec fn permitted(model: PreparedMessagesView) -> StateView {
        model.state
    }

    open spec fn wire_format() -> ManagedFormat {
        ManagedFormat::Messages
    }

    open spec fn counted(model: PreparedMessagesView, round: MessagesRoundView) -> PreparedMessagesView {
        PreparedMessagesView {
            usage: Some(messages_usage_added(model.usage, round.usage)),
            ..model
        }
    }

    open spec fn collected(model: PreparedMessagesView, round: MessagesRoundView) -> Result<
        CollectedView,
        ErrorView,
    > {
        blocks_collected(
            model.state,
            tool_names(model.request.tools(), None),
            ran_out(round.message),
            blocks_of(round.message),
        )
    }

    open spec fn appended(
        model: PreparedMessagesView,
        round: MessagesRoundView,
        outputs: Seq<JsonView>,
    ) -> PreparedMessagesView {
        with_messages_round(model, blocks_of(round.message), outputs)
    }

    open spec fn concluded(
        model: PreparedMessagesView,
        round: MessagesRoundView,
        budget: BudgetView,
        last: ManagedMessagesResponse,
    ) -> bool {
        &&& last.message@ == (match model.usage {
            Some(usage) => round.message.with("usage"@, messages_usage_json(usage)),
            None => round.message,
        })
        &&& last.summary.usage@ == (match model.usage {
            Some(usage) => usage,
            None => round.usage,
        })
        &&& last.summary.rounds == budget.rounds
        &&& last.summary.tool_calls == budget.tool_calls
        &&& last.summary.client_streaming == model.client_streaming
    }

    fn state(&self) -> &ManagedToolState {
        &self.state
    }

    fn model_request(&self) -> &ModelRequest {
        &self.canonical_request
    }

    fn format(&self) -> ManagedFormat {
        ManagedFormat::Messages
    }

    fn accumulate_usage(&mut self, round: &MessagesRound) {
        PreparedMessagesRuntime::accumulate_usage(self, &round.usage);
    }

    fn collect_model_calls(&self, round: &MessagesRound) -> Result<
        CollectedToolCalls,
        ToolRuntimeError,
    > {
        PreparedMessagesRuntime::collect_model_calls(self, &round.message)
    }

    fn append_round_history(&mut self, round: MessagesRound, outputs: Vec<Json>) {
        PreparedMessagesRuntime::append_round_history(self, take_blocks(round.message), outputs);
    }

    fn finalize(self, round: MessagesRound, budget: &RuntimeBudget) -> ManagedMessagesResponse {
        let (message, summary) = finalize_messages(round.message, self, round.usage, budget);
        ManagedMessagesResponse { message, summary }
    }
}

/// A round that led to calls, what carrying them out left of the conversation, and what they gave.
/// Only a search changes a conversation.
pub struct TakenRound<M, R> {
    pub round: R,
    pub searched: bool,
    pub carried: M,
    pub outputs: Seq<JsonView>,
}

/// The rounds of a request so far that led to calls.
pub struct Rounds<M, R> {
    pub start: M,
    pub taken: Seq<TakenRound<M, R>>,
}

impl<M, R> Rounds<M, R> {
    /// The first rounds.
    pub open spec fn first(self, n: int) -> Rounds<M, R> {
        Rounds { start: self.start, taken: self.taken.take(n) }
    }

    pub open spec fn with(self, round: TakenRound<M, R>) -> Rounds<M, R> {
        Rounds { start: self.start, taken: self.taken.push(round) }
    }
}

/// What a request is once these rounds are part of its history.
pub open spec fn conversation_after<C: ManagedConversation>(
    rounds: Rounds<C::Model, C::RoundModel>,
) -> C::Model {
    if rounds.taken.len() == 0 {
        rounds.start
    } else {
        C::appended(
            rounds.taken.last().carried,
            rounds.taken.last().round,
            rounds.taken.last().outputs,
        )
    }
}

/// Whether there is anything to carry out.
pub open spec fn has_calls(collected: Result<CollectedView, ErrorView>) -> bool {
    match collected {
        Ok(CollectedView::Direct(calls)) => calls.len() > 0,
        Ok(CollectedView::Programmatic { .. }) => true,
        Err(_) => false,
    }
}

/// Whether a round was taken as it must be, when the conversation was this: its tokens were
/// counted, its calls were read then, and there were some.
pub open spec fn is_taken<C: ManagedConversation>(
    model: C::Model,
    taken: TakenRound<C::Model, C::RoundModel>,
) -> bool {
    let counted = C::counted(model, taken.round);
    &&& has_calls(C::collected(counted, taken.round))
    &&& !taken.searched ==> taken.carried == counted
}

/// Whether every round was taken as it must be, each after the one before was part of the history.
pub open spec fn in_turn<C: ManagedConversation>(rounds: Rounds<C::Model, C::RoundModel>) -> bool {
    forall|i: int|
        0 <= i < rounds.taken.len() ==> is_taken::<C>(
            conversation_after::<C>(rounds.first(i)),
            #[trigger] rounds.taken[i],
        )
}

proof fn lemma_in_turn<C: ManagedConversation>(
    rounds: Rounds<C::Model, C::RoundModel>,
    taken: TakenRound<C::Model, C::RoundModel>,
)
    requires
        in_turn::<C>(rounds),
        is_taken::<C>(conversation_after::<C>(rounds), taken),
    ensures
        in_turn::<C>(rounds.with(taken)),
{
    let more = rounds.with(taken);
    assert forall|i: int| 0 <= i < more.taken.len() implies is_taken::<C>(
        conversation_after::<C>(more.first(i)),
        #[trigger] more.taken[i],
    ) by {
        if i < rounds.taken.len() {
            assert(more.taken.take(i) =~= rounds.taken.take(i));
            assert(rounds.taken[i] == more.taken[i]);
        } else {
            assert(more.taken.take(i) =~= rounds.taken);
        }
    }
}

/// A request between two rounds.
pub struct Conversing<C: ManagedConversation> {
    conversation: C,
    rounds: Ghost<Rounds<C::Model, C::RoundModel>>,
}

/// A request whose model was asked and has not answered.
pub struct RoundAsked<C: ManagedConversation> {
    conversation: C,
    started: Instant,
    rounds: Ghost<Rounds<C::Model, C::RoundModel>>,
}

/// A request whose model answered.
pub struct RoundAnswered<C: ManagedConversation> {
    conversation: C,
    started: Instant,
    round: C::Round,
    rounds: Ghost<Rounds<C::Model, C::RoundModel>>,
}

/// A request whose calls are being carried out.
pub struct CallsPending<C: ManagedConversation> {
    conversation: C,
    round: C::Round,
    searched: Ghost<bool>,
    rounds: Ghost<Rounds<C::Model, C::RoundModel>>,
}

/// How a model round ended.
pub enum RoundReply<R> {
    TimedOut,
    Failed(ToolRuntimeError),
    InfrastructureError,
    UpstreamError,
    Answered(R),
}

impl<R> RoundReply<R> {
    /// How the round ended, as far as it is not about what the model said.
    pub open spec fn end(self) -> RoundEndView {
        match self {
            RoundReply::TimedOut => RoundEndView::TimedOut,
            RoundReply::Failed(error) => RoundEndView::Failed(error@),
            RoundReply::InfrastructureError => RoundEndView::InfrastructureError,
            RoundReply::UpstreamError => RoundEndView::UpstreamError,
            RoundReply::Answered(_) => RoundEndView::Answered,
        }
    }
}

/// What follows an answer: its calls are to be carried out, or it was the last.
pub enum RequestStep<C: ManagedConversation> {
    Finish(C::Final),
    Execute(CallsPending<C>, CollectedToolCalls),
}

impl<C: ManagedConversation> Conversing<C> {
    pub closed spec fn model(&self) -> C::Model {
        self.conversation.model()
    }

    pub closed spec fn rounds(&self) -> Rounds<C::Model, C::RoundModel> {
        self.rounds@
    }

    #[verifier::type_invariant]
    spec fn inv(self) -> bool {
        &&& in_turn::<C>(self.rounds@)
        &&& self.conversation.model() == conversation_after::<C>(self.rounds@)
    }

    /// A request before its first round.
    pub fn new(conversation: C) -> (r: Conversing<C>)
        ensures
            r.model() == conversation.model(),
            r.rounds() == (Rounds::<C::Model, C::RoundModel> {
                start: conversation.model(),
                taken: Seq::empty(),
            }),
    {
        Conversing {
            conversation,
            rounds: Ghost(Rounds { start: conversation.model(), taken: Seq::empty() }),
        }
    }

    pub fn conversation(&self) -> (r: &C)
        ensures
            r.model() == self.model(),
    {
        &self.conversation
    }

    /// Begins another round: how long it may take. The rounds so far were taken in turn, and there
    /// are no more of them than are allowed.
    pub fn begin_round(self, budget: &mut RuntimeBudget, now: Instant) -> (r: Result<
        (RoundAsked<C>, Duration),
        RunError,
    >)
        ensures
            in_turn::<C>(self.rounds()),
            self.model() == conversation_after::<C>(self.rounds()),
            match r {
                Ok((asked, remaining)) => {
                    &&& old(budget)@.round_complaint(now) is None
                    &&& remaining.nanos == old(budget)@.remaining(now) > 0
                    &&& final(budget)@ == old(budget)@.round_begun(now)
                    &&& final(budget)@.rounds == old(budget)@.rounds + 1
                    &&& final(budget)@.rounds <= final(budget)@.max_rounds
                    &&& asked.model() == self.model()
                    &&& asked.rounds() == self.rounds()
                    &&& asked.started() == now
                },
                Err(stop) => {
                    &&& old(budget)@.round_complaint(now) is Some
                    &&& stop@ == RunErrorView::Runtime(old(budget)@.round_complaint(now)->0)
                    &&& final(budget)@ == ({
                        let error = old(budget)@.round_complaint(now)->0;
                        old(budget)@.with_error(error).stopped(error)
                    })
                },
            },
            old(budget)@.wf() ==> final(budget)@.wf(),
    {
        proof {
            use_type_invariant(&self);
        }
        match begin_round(budget, now) {
            Ok(remaining) => {
                let Conversing { conversation, rounds } = self;
                Ok((RoundAsked { conversation, started: now, rounds }, remaining))
            },
            Err(stop) => Err(stop),
        }
    }
}

impl<C: ManagedConversation> RoundAsked<C> {
    pub closed spec fn model(&self) -> C::Model {
        self.conversation.model()
    }

    pub closed spec fn rounds(&self) -> Rounds<C::Model, C::RoundModel> {
        self.rounds@
    }

    pub closed spec fn started(&self) -> Instant {
        self.started
    }

    #[verifier::type_invariant]
    spec fn inv(self) -> bool {
        &&& in_turn::<C>(self.rounds@)
        &&& self.conversation.model() == conversation_after::<C>(self.rounds@)
    }

    /// The conversation; its request is what the model is asked.
    pub fn conversation(&self) -> (r: &C)
        ensures
            r.model() == self.model(),
    {
        &self.conversation
    }

    /// Settles how the round ended.
    pub fn settle_round(
        self,
        reply: RoundReply<C::Round>,
        budget: &mut RuntimeBudget,
        now: Instant,
    ) -> (r: Result<RoundAnswered<C>, RunError>)
        ensures
            ({
                let (after, stop) = old(budget)@.round_settled(
                    reply.end(),
                    elapsed(now, self.started()),
                    now,
                );
                &&& final(budget)@ == after
                &&& match r {
                    Ok(answered) => {
                        &&& stop is None
                        &&& reply is Answered
                        &&& answered.round() == C::round_model(&reply->Answered_0)
                        &&& answered.model() == self.model()
                        &&& answered.rounds() == self.rounds()
                        &&& answered.started() == self.started()
                    },
                    Err(error) => stop == Some(error@),
                }
            }),
            old(budget)@.wf() ==> final(budget)@.wf(),
    {
        proof {
            use_type_invariant(&self);
        }
        let RoundAsked { conversation, started, rounds } = self;
        let end = match reply {
            RoundReply::Answered(round) => {
                return match settle_round(RoundEnd::Answered, budget, started, now) {
                    Ok(_) => Ok(RoundAnswered { conversation, started, round, rounds }),
                    Err(stop) => Err(stop),
                };
            },
            RoundReply::TimedOut => RoundEnd::TimedOut,
            RoundReply::Failed(error) => RoundEnd::Failed(error),
            RoundReply::InfrastructureError => RoundEnd::InfrastructureError,
            RoundReply::UpstreamError => RoundEnd::UpstreamError,
        };
        match settle_round(end, budget, started, now) {
            Ok(_) => Err(RunError::Runtime(ToolRuntimeError::internal())),
            Err(stop) => Err(stop),
        }
    }
}

impl<C: ManagedConversation> RoundAnswered<C> {
    pub closed spec fn model(&self) -> C::Model {
        self.conversation.model()
    }

    pub closed spec fn rounds(&self) -> Rounds<C::Model, C::RoundModel> {
        self.rounds@
    }

    pub closed spec fn started(&self) -> Instant {
        self.started
    }

    pub closed spec fn round(&self) -> C::RoundModel {
        C::round_model(&self.round)
    }

    #[verifier::type_invariant]
    spec fn inv(self) -> bool {
        &&& in_turn::<C>(self.rounds@)
        &&& self.conversation.model() == conversation_after::<C>(self.rounds@)
    }

    /// Counts the tokens of the round, and settles what its calls lead to. The last round is the
    /// first without calls.
    pub fn settle_calls(self, budget: &mut RuntimeBudget, now: Instant) -> (r: Result<
        RequestStep<C>,
        RunError,
    >)
        ensures
            ({
                let counted = C::counted(self.model(), self.round());
                let collected = C::collected(counted, self.round());
                let (after, next) = old(budget)@.calls_settled(
                    collected,
                    elapsed(now, self.started()),
                    now,
                );
                &&& final(budget)@ == after
                &&& match r {
                    Ok(RequestStep::Finish(last)) => {
                        &&& next == Ok::<NextView, ErrorView>(NextView::Finish)
                        &&& !has_calls(collected)
                        &&& C::concluded(counted, self.round(), final(budget)@, last)
                    },
                    Ok(RequestStep::Execute(pending, calls)) => {
                        &&& next == Ok::<NextView, ErrorView>(NextView::Execute(calls@))
                        &&& collected == Ok::<CollectedView, ErrorView>(calls@)
                        &&& has_calls(collected)
                        &&& pending.model() == counted
                        &&& pending.round() == self.round()
                        &&& !pending.searched()
                        &&& pending.rounds() == self.rounds()
                    },
                    Err(stop) => next is Err && stop@ == RunErrorView::Runtime(next->Err_0),
                }
            }),
            old(budget)@.wf() ==> final(budget)@.wf(),
    {
        proof {
            use_type_invariant(&self);
        }
        let RoundAnswered { conversation, started, round, rounds } = self;
        let mut conversation = conversation;
        conversation.accumulate_usage(&round);
        let collected = conversation.collect_model_calls(&round);
        match settle_calls(collected, budget, started, now) {
            Ok(NextStep::Finish) => Ok(RequestStep::Finish(conversation.finalize(round, budget))),
            Ok(NextStep::Execute(calls)) => Ok(
                RequestStep::Execute(
                    CallsPending { conversation, round, searched: Ghost(false), rounds },
                    calls,
                ),
            ),
            Err(stop) => Err(stop),
        }
    }
}

impl<C: ManagedConversation> CallsPending<C> {
    pub closed spec fn model(&self) -> C::Model {
        self.conversation.model()
    }

    pub closed spec fn rounds(&self) -> Rounds<C::Model, C::RoundModel> {
        self.rounds@
    }

    pub closed spec fn round(&self) -> C::RoundModel {
        C::round_model(&self.round)
    }

    /// Whether a search may have changed the conversation.
    pub closed spec fn searched(&self) -> bool {
        self.searched@
    }

    #[verifier::type_invariant]
    spec fn inv(self) -> bool {
        let counted = C::counted(
            conversation_after::<C>(self.rounds@),
            C::round_model(&self.round),
        );
        &&& in_turn::<C>(self.rounds@)
        &&& has_calls(C::collected(counted, C::round_model(&self.round)))
        &&& !self.searched@ ==> self.conversation.model() == counted
    }

    pub fn conversation(&self) -> (r: &C)
        ensures
            r.model() == self.model(),
    {
        &self.conversation
    }

    /// Takes the conversation out for a search.
    pub fn begin_search(self) -> (r: (C, Searching<C>))
        ensures
            r.0.model() == self.model(),
            r.1.round() == self.round(),
            r.1.rounds() == self.rounds(),
    {
        proof {
            use_type_invariant(&self);
        }
        let CallsPending { conversation, round, searched: _, rounds } = self;
        (conversation, Searching { round, rounds })
    }

    /// Ends the calls of a round: it and what they gave become part of the history, unless they
    /// failed.
    pub fn end_calls(
        self,
        outputs: Result<Vec<Json>, ToolRuntimeError>,
        budget: &mut RuntimeBudget,
    ) -> (r: Result<Conversing<C>, RunError>)
        ensures
            match outputs {
                Ok(outputs) => {
                    &&& final(budget)@ == old(budget)@
                    &&& r is Ok
                    &&& r->Ok_0.model() == C::appended(
                        self.model(),
                        self.round(),
                        json::views(outputs@),
                    )
                    &&& r->Ok_0.rounds() == self.rounds().with(
                        TakenRound {
                            round: self.round(),
                            searched: self.searched(),
                            carried: self.model(),
                            outputs: json::views(outputs@),
                        },
                    )
                },
                Err(error) => {
                    &&& final(budget)@ == old(budget)@.stopped(error@)
                    &&& r is Err
                    &&& r->Err_0@ == RunErrorView::Runtime(error@)
                },
            },
            old(budget)@.wf() ==> final(budget)@.wf(),
    {
        proof {
            use_type_invariant(&self);
        }
        match outputs {
            Ok(outputs) => {
                let CallsPending { conversation, round, searched, rounds } = self;
                let ghost taken = TakenRound {
                    round: C::round_model(&round),
                    searched: searched@,
                    carried: conversation.model(),
                    outputs: json::views(outputs@),
                };
                let ghost before = rounds@;
                let mut conversation = conversation;
                conversation.append_round_history(round, outputs);
                proof {
                    lemma_in_turn::<C>(before, taken);
                    assert(before.with(taken).taken.last() == taken);
                }
                Ok(Conversing { conversation, rounds: Ghost(before.with(taken)) })
            },
            Err(error) => Err(finish_runtime_error(budget, error)),
        }
    }
}

/// A request whose conversation was taken out for a search.
pub struct Searching<C: ManagedConversation> {
    round: C::Round,
    rounds: Ghost<Rounds<C::Model, C::RoundModel>>,
}

impl<C: ManagedConversation> Searching<C> {
    pub closed spec fn rounds(&self) -> Rounds<C::Model, C::RoundModel> {
        self.rounds@
    }

    pub closed spec fn round(&self) -> C::RoundModel {
        C::round_model(&self.round)
    }

    #[verifier::type_invariant]
    spec fn inv(self) -> bool {
        let counted = C::counted(
            conversation_after::<C>(self.rounds@),
            C::round_model(&self.round),
        );
        &&& in_turn::<C>(self.rounds@)
        &&& has_calls(C::collected(counted, C::round_model(&self.round)))
    }

    /// Puts the conversation back, as the search left it.
    pub fn end_search(self, conversation: C) -> (r: CallsPending<C>)
        ensures
            r.model() == conversation.model(),
            r.round() == self.round(),
            r.searched(),
            r.rounds() == self.rounds(),
    {
        proof {
            use_type_invariant(&self);
        }
        let Searching { round, rounds } = self;
        CallsPending { conversation, round, searched: Ghost(true), rounds }
    }
}

/// The tokens of all rounds over the Responses format.
pub open spec fn counted_rounds(
    start: Option<Usage>,
    taken: Seq<TakenRound<PreparedView, ResponsesRoundView>>,
) -> Option<Usage>
    decreases taken.len(),
{
    if taken.len() == 0 {
        start
    } else {
        usage_added(counted_rounds(start, taken.drop_last()), taken.last().round.usage)
    }
}

/// What was said over the Responses format: what each round gave, and then what its calls gave.
pub open spec fn told_rounds(
    start: Seq<JsonView>,
    taken: Seq<TakenRound<PreparedView, ResponsesRoundView>>,
) -> Seq<JsonView>
    decreases taken.len(),
{
    if taken.len() == 0 {
        start
    } else {
        told_rounds(start, taken.drop_last()) + taken.last().round.raw_output
            + taken.last().outputs
    }
}

/// Whether searches changed neither what was said so far nor what was counted.
pub open spec fn searches_keep_the_talk(rounds: Rounds<PreparedView, ResponsesRoundView>) -> bool {
    forall|i: int|
        0 <= i < rounds.taken.len() ==> {
            let before = conversation_after::<PreparedToolRuntime>(rounds.first(i));
            let taken = #[trigger] rounds.taken[i];
            &&& taken.carried.usage == usage_added(before.usage, taken.round.usage)
            &&& taken.carried.request.history == before.request.history
        }
}

/// Over the Responses format the tokens of every round are counted once, and every round and what
/// its calls gave are part of the history, in order, before the model is asked again.
pub proof fn responses_rounds_are_counted_once_and_told_in_order(
    rounds: Rounds<PreparedView, ResponsesRoundView>,
)
    requires
        in_turn::<PreparedToolRuntime>(rounds),
        searches_keep_the_talk(rounds),
    ensures
        ({
            let after = conversation_after::<PreparedToolRuntime>(rounds);
            &&& after.usage == counted_rounds(rounds.start.usage, rounds.taken)
            &&& PreparedToolRuntime::asked(after).history == told_rounds(
                rounds.start.request.history,
                rounds.taken,
            )
        }),
    decreases rounds.taken.len(),
{
    if rounds.taken.len() > 0 {
        let n = rounds.taken.len() - 1;
        let fewer = rounds.first(n);
        lemma_first_in_turn::<PreparedToolRuntime>(rounds, n);
        assert forall|i: int| 0 <= i < fewer.taken.len() implies {
            let before = conversation_after::<PreparedToolRuntime>(fewer.first(i));
            let taken = #[trigger] fewer.taken[i];
            &&& taken.carried.usage == usage_added(before.usage, taken.round.usage)
            &&& taken.carried.request.history == before.request.history
        } by {
            assert(fewer.taken[i] == rounds.taken[i]);
            assert(fewer.taken.take(i) =~= rounds.taken.take(i));
        }
        responses_rounds_are_counted_once_and_told_in_order(fewer);
        assert(fewer.taken =~= rounds.taken.drop_last());
        assert(rounds.taken[n] == rounds.taken.last());
    }
}

/// The tokens of all rounds over the Messages format.
pub open spec fn counted_messages(
    start: Option<MessagesUsageView>,
    taken: Seq<TakenRound<PreparedMessagesView, MessagesRoundView>>,
) -> Option<MessagesUsageView>
    decreases taken.len(),
{
    if taken.len() == 0 {
        start
    } else {
        Some(
            messages_usage_added(
                counted_messages(start, taken.drop_last()),
                taken.last().round.usage,
            ),
        )
    }
}

/// What was said over the Messages format: what each round gave, and then what its calls gave.
pub open spec fn told_messages(
    start: Seq<JsonView>,
    taken: Seq<TakenRound<PreparedMessagesView, MessagesRoundView>>,
) -> Seq<JsonView>
    decreases taken.len(),
{
    if taken.len() == 0 {
        start
    } else {
        told_messages(start, taken.drop_last()).push(
            history_message("assistant"@, blocks_of(taken.last().round.message)),
        ).push(history_message("user"@, taken.last().outputs))
    }
}

/// Over the Messages format, which has no searches, the tokens of every round are counted once, and
/// every round and what its calls gave are part of the history, in order, before the model is asked
/// again.
pub proof fn messages_rounds_are_counted_once_and_told_in_order(
    rounds: Rounds<PreparedMessagesView, MessagesRoundView>,
)
    requires
        in_turn::<PreparedMessagesRuntime>(rounds),
        forall|i: int| 0 <= i < rounds.taken.len() ==> !(#[trigger] rounds.taken[i]).searched,
    ensures
        ({
            let after = conversation_after::<PreparedMessagesRuntime>(rounds);
            &&& after.usage == counted_messages(rounds.start.usage, rounds.taken)
            &&& PreparedMessagesRuntime::asked(after).history == told_messages(
                rounds.start.request.history,
                rounds.taken,
            )
        }),
    decreases rounds.taken.len(),
{
    if rounds.taken.len() > 0 {
        let n = rounds.taken.len() - 1;
        let fewer = rounds.first(n);
        lemma_first_in_turn::<PreparedMessagesRuntime>(rounds, n);
        assert forall|i: int| 0 <= i < fewer.taken.len() implies !(
        #[trigger] fewer.taken[i]).searched by {
            assert(fewer.taken[i] == rounds.taken[i]);
        }
        messages_rounds_are_counted_once_and_told_in_order(fewer);
        assert(fewer.taken =~= rounds.taken.drop_last());
        assert(rounds.taken[n] == rounds.taken.last());
    }
}

proof fn lemma_first_in_turn<C: ManagedConversation>(
    rounds: Rounds<C::Model, C::RoundModel>,
    n: int,
)
    requires
        in_turn::<C>(rounds),
        0 <= n <= rounds.taken.len(),
    ensures
        in_turn::<C>(rounds.first(n)),
{
    let fewer = rounds.first(n);
    assert forall|i: int| 0 <= i < fewer.taken.len() implies is_taken::<C>(
        conversation_after::<C>(fewer.first(i)),
        #[trigger] fewer.taken[i],
    ) by {
        assert(fewer.taken[i] == rounds.taken[i]);
        assert(fewer.taken.take(i) =~= rounds.taken.take(i));
    }
}

/// Nothing but the beginning of a round counts as one: neither its end, nor the calls that it led
/// to, in a batch or in a program, whether they were admitted or refused.
pub proof fn only_a_begun_round_counts(
    budget: BudgetView,
    end: RoundEndView,
    collected: Result<CollectedView, ErrorView>,
    registry: RegistryView,
    calls: Seq<CallView>,
    operations: Seq<BackendOperation>,
    recorded: Recorded,
    searches: nat,
    parallel: bool,
    error: ErrorView,
    index: usize,
    failure: Option<ToolInfrastructureError>,
    metadata: ToolBatchMetadata,
    duration: Duration,
    now: Instant,
)
    ensures
        budget.round_begun(now).max_rounds == budget.max_rounds,
        budget.round_complaint(now) is None ==> budget.round_begun(now).rounds == budget.rounds + 1
            <= budget.max_rounds,
        same_rounds(budget.round_settled(end, duration, now).0, budget),
        same_rounds(budget.calls_settled(collected, duration, now).0, budget),
        same_rounds(searches_reserved(budget, searches).0, budget),
        same_rounds(budget.calls_reserved(calls.len()), budget),
        same_rounds(budget.with_recorded(recorded), budget),
        same_rounds(batch_refused(registry, calls, parallel, budget, error), budget),
        same_rounds(budget.batch_failed(operations, parallel, error, now), budget),
        same_rounds(budget.program_begun(now), budget),
        same_rounds(budget.program_refused(now), budget),
        same_rounds(budget.program_ended(index, failure, metadata, now), budget),
        same_rounds(budget.program_timed_out(index, now), budget),
        same_rounds(budget.stopped(error), budget),
{
}

/// Whether as many rounds were begun, of as many that are allowed.
pub open spec fn same_rounds(a: BudgetView, b: BudgetView) -> bool {
    a.rounds == b.rounds && a.max_rounds == b.max_rounds
}

} // verus!
