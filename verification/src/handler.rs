//! The synchronisation policy engine.
//!
//! The handler owns the forest and talks to three collaborators: the chain
//! status, which says what the node has; the verifier, which checks
//! justifications; and the finalizer, which makes blocks final. Nothing is
//! assumed of what a collaborator answers: whatever holds after a call holds
//! for every answer. What a result was made from is said through the
//! predicates that the collaborators carry for their answers.

use vstd::prelude::*;
use crate::block::{BlockId, Header, HeaderView, PeerId};
use crate::data::{NetworkData, NetworkDataView, Request, RequestView, State};
use crate::forest::{Forest, Interest};
use crate::forest_model::{ForestError, ForestView, InterestView};
use crate::justification::{Justification, JustificationView};
use crate::policy::{
    request_plan, request_response, serves, spec_request_plan, spec_select, spec_serves,
    spec_state_reaction, state_reaction, BlockStatus, FinalizationStatus, RequestPlan,
    StateReaction,
};
use crate::session::{
    clip, last_block_of, session_of, SessionBoundaryInfo, SessionId, SessionPeriod,
};

verus! {

/// The node's own chain, as synchronisation consults it.
///
/// Each question comes with a predicate that says which answers the chain
/// may give to it. The predicates hold of every answer unless an
/// implementation says otherwise, so they promise nothing by themselves:
/// they are there for contracts to say which answers a result was made from.
pub trait ChainStatus {
    type Error;

    /// Whether the chain may give `answer` when asked for its top finalized block.
    open spec fn top_finalized_gives(&self, answer: Result<Justification, Self::Error>) -> bool {
        true
    }

    /// Whether the chain may give `answer` when asked how far the node has `id`.
    open spec fn block_status_gives(
        &self,
        id: BlockId,
        answer: Result<BlockStatus, Self::Error>,
    ) -> bool {
        true
    }

    /// Whether the chain may give `answer` when asked what is final at the
    /// height `number`.
    open spec fn finalized_at_gives(
        &self,
        number: u32,
        answer: Result<FinalizationStatus, Self::Error>,
    ) -> bool {
        true
    }

    /// The top finalized block, with its justification.
    fn top_finalized(&self) -> (answer: Result<Justification, Self::Error>)
        ensures
            self.top_finalized_gives(answer),
    ;

    /// How far the node has the block `id`.
    fn block_status(&self, id: &BlockId) -> (answer: Result<BlockStatus, Self::Error>)
        ensures
            self.block_status_gives(*id, answer),
    ;

    /// What is final at the height `number`.
    fn finalized_at(&self, number: u32) -> (answer: Result<FinalizationStatus, Self::Error>)
        ensures
            self.finalized_at_gives(number, answer),
    ;
}

/// The check of a justification's certificate.
pub trait Verifier {
    type Error;

    /// Whether the verifier may give `verdict` on `justification`. This
    /// holds of every verdict unless an implementation says otherwise.
    open spec fn verify_gives(
        &self,
        justification: Justification,
        verdict: Result<Justification, Self::Error>,
    ) -> bool {
        true
    }

    /// The justification, if its certificate holds.
    fn verify(&self, justification: Justification) -> (verdict: Result<
        Justification,
        Self::Error,
    >)
        ensures
            self.verify_gives(justification, verdict),
    ;
}

/// What makes a block final in the node's chain.
pub trait Finalizer {
    type Error;

    /// Whether the finalizer may give `answer` when it is handed the block
    /// `id` with `justification`. This holds of every answer unless an
    /// implementation says otherwise.
    open spec fn finalize_gives(
        &self,
        id: BlockId,
        justification: Justification,
        answer: Result<(), Self::Error>,
    ) -> bool {
        true
    }

    /// Makes the block `id` final on the strength of `justification`.
    fn finalize(&self, id: BlockId, justification: Justification) -> (answer: Result<
        (),
        Self::Error,
    >)
        ensures
            self.finalize_gives(id, justification, answer),
    ;
}

/// What can go wrong when handling a piece of data.
#[derive(Debug, PartialEq, Eq)]
pub enum Error<CE, VE, FE> {
    /// The verifier refused a justification.
    Verifier(VE),
    /// The chain status failed to answer.
    ChainStatus(CE),
    /// The finalizer failed to make a block final.
    Finalizer(FE),
    /// The forest refused what it was told.
    Forest(ForestError),
    /// The chain holds no justification where sessions end.
    MissingJustification,
    /// A request names a block below the horizon.
    BelowHorizon,
}

/// The contents of a [`SyncAction`].
pub enum SyncActionView {
    Response(NetworkDataView),
    Task(BlockId),
    Noop,
}

/// What actions can the handler recommend as a reaction to some data.
#[derive(Debug, PartialEq, Eq)]
pub enum SyncAction {
    /// A response for the peer that sent us the data.
    Response(NetworkData),
    /// A task that should be performed periodically. At the moment these are
    /// only requests for blocks, so it always contains the id of the block.
    Task(BlockId),
    /// Do nothing.
    Noop,
}

impl View for SyncAction {
    type V = SyncActionView;

    open spec fn view(&self) -> SyncActionView {
        match self {
            SyncAction::Response(data) => SyncActionView::Response(data@),
            SyncAction::Task(id) => SyncActionView::Task(*id),
            SyncAction::Noop => SyncActionView::Noop,
        }
    }
}

/// The action that follows a justification taken in: a task for the block if
/// it is the new highest justified one, nothing otherwise.
pub open spec fn spec_follow_up(extended: Option<BlockId>) -> SyncActionView {
    match extended {
        Some(id) => SyncActionView::Task(id),
        None => SyncActionView::Noop,
    }
}

/// Whether the forest `after` is `before` with some of its blocks finalized:
/// either nothing changed, or a block that could be finalized is the new
/// frontier and everything at or below its height is forgotten.
pub open spec fn finalized_from(before: ForestView, after: ForestView) -> bool {
    after == before || (before.ready(after.root) && after == before.rooted_at(after.root))
}

/// Finalizing twice, the higher block last, is finalizing the higher block.
pub proof fn lemma_finalized_from_chains(first: ForestView, second: ForestView, third: ForestView)
    requires
        first.wf(),
        finalized_from(first, second),
        finalized_from(second, third),
    ensures
        finalized_from(first, third),
        second.wf(),
        third.wf(),
        first.root.number <= second.root.number <= third.root.number,
{
    lemma_finalized_from_wf(first, second);
    lemma_finalized_from_wf(second, third);
    if second != first && third != second {
        let a = second.root;
        let b = third.root;
        assert(second.contains(b));
        assert(first.contains(b) && first.vertices[b] == second.vertices[b]);
        assert(first.rooted_at(a).rooted_at(b).vertices =~= first.rooted_at(b).vertices);
    }
}

/// A forest with some blocks finalized is well-formed, and its frontier is no lower.
pub proof fn lemma_finalized_from_wf(before: ForestView, after: ForestView)
    requires
        before.wf(),
        finalized_from(before, after),
    ensures
        after.wf(),
        before.root.number <= after.root.number,
        after != before ==> before.root.number < after.root.number,
{
    if after != before {
        let id = after.root;
        crate::forest_model::lemma_ready_at_is_unique(before, id);
        crate::forest_model::lemma_try_finalize_wf(before, id.number);
        assert(before.candidate(id));
    }
}

/// Neither a justification taken in nor a finalization lowers the highest
/// block known to be justified; a justification that is news becomes it.
pub proof fn lemma_highest_justified_rises(
    forest: ForestView,
    justification: JustificationView,
    holder: Option<PeerId>,
    later: ForestView,
)
    requires
        forest.wf(),
        forest.update_justification(justification, holder).1 is Ok,
        finalized_from(forest.update_justification(justification, holder).0, later),
    ensures
        later.highest_justified.number >= forest.highest_justified.number,
        forest.update_justification(justification, holder).1 == Ok::<bool, ForestError>(true) ==> {
            &&& justification.number() > forest.highest_justified.number
            &&& later.highest_justified.number >= justification.number()
        },
{
}

/// A justification that is no news names a block no higher than the highest
/// block known to be justified.
pub proof fn lemma_no_news_is_not_ahead(
    forest: ForestView,
    justification: JustificationView,
    holder: Option<PeerId>,
)
    requires
        forest.wf(),
        forest.update_justification(justification, holder).1 == Ok::<bool, ForestError>(false),
    ensures
        justification.number() <= forest.highest_justified.number,
{
    let id = justification.id();
    if forest.candidate(id) {
        if forest.justified(id) {
        }
    } else {
        assert(forest.highest_justified != forest.root ==> forest.justified(
            forest.highest_justified,
        ));
        if forest.highest_justified != forest.root {
            assert(forest.contains(forest.highest_justified));
            assert(forest.candidate(forest.highest_justified));
        }
    }
}

/// A justification that the forest took in is no news when it arrives
/// again from the same peer, whatever was finalized in between: nothing is
/// requested twice on the strength of one announcement.
pub proof fn lemma_repeated_justification_is_no_news(
    forest: ForestView,
    justification: JustificationView,
    holder: Option<PeerId>,
    later: ForestView,
)
    requires
        forest.wf(),
        forest.update_justification(justification, holder).1 is Ok,
        finalized_from(forest.update_justification(justification, holder).0, later),
    ensures
        later.update_justification(justification, holder) == (
            later,
            Ok::<bool, ForestError>(false),
        ),
{
    let once = forest.update_justification(justification, holder).0;
    let id = justification.id();
    crate::forest_model::lemma_update_justification_wf(forest, justification, holder);
    crate::forest_model::lemma_update_justification_idempotent(forest, justification, holder);
    lemma_finalized_from_wf(once, later);
    if later != once {
        if later.candidate(id) {
            assert(forest.candidate(id));
            assert(once.justified(id));
            assert(later.contains(id));
            assert(later.justified(id));
            match holder {
                Some(peer) => {
                    assert(later.vertices[id].know_most.contains(peer));
                    assert(later.vertices[id].know_most.insert(peer)
                        =~= later.vertices[id].know_most);
                },
                None => {},
            }
            assert(later.with_vertex(id, later.vertices[id].with_holder(holder)).vertices
                =~= later.vertices);
        }
    }
}

/// Whether `after` is what a handler makes of the forest `before` when it
/// handles one verified justification.
pub open spec fn justification_step(before: ForestView, after: ForestView) -> bool {
    exists|justification: JustificationView, holder: Option<PeerId>|
        match #[trigger] before.update_justification(justification, holder) {
            (_, Err(_)) => after == before,
            (updated, Ok(_)) => finalized_from(updated, after),
        }
}

/// Through any sequence of justifications handled one after another, the
/// finalized frontier never moves down.
pub proof fn lemma_frontier_never_moves_down(forests: Seq<ForestView>)
    requires
        forests.len() > 0,
        forests[0].wf(),
        forall|i: int|
            0 <= i < forests.len() - 1 ==> justification_step(
                #[trigger] forests[i],
                forests[i + 1],
            ),
    ensures
        forall|i: int| 0 <= i < forests.len() ==> (#[trigger] forests[i]).wf(),
        forall|i: int, j: int|
            0 <= i <= j < forests.len() ==> forests[i].root.number <= forests[j].root.number,
    decreases forests.len(),
{
    if forests.len() > 1 {
        let front = forests.drop_last();
        assert forall|i: int| 0 <= i < front.len() - 1 implies justification_step(
            #[trigger] front[i],
            front[i + 1],
        ) by {
            assert(front[i] == forests[i]);
            assert(front[i + 1] == forests[i + 1]);
        }
        lemma_frontier_never_moves_down(front);
        let n = forests.len() - 1;
        let before = forests[n - 1];
        let after = forests[n];
        assert(before == front[n - 1]);
        assert(before.wf());
        assert(justification_step(before, after));
        let (justification, holder) = choose|
            justification: JustificationView,
            holder: Option<PeerId>,
        |
            match #[trigger] before.update_justification(justification, holder) {
                (_, Err(_)) => after == before,
                (updated, Ok(_)) => finalized_from(updated, after),
            };
        crate::forest_model::lemma_update_justification_wf(before, justification, holder);
        if before.update_justification(justification, holder).1 is Ok {
            lemma_finalized_from_wf(before.update_justification(justification, holder).0, after);
        }
        assert forall|i: int| 0 <= i < forests.len() implies (#[trigger] forests[i]).wf() by {
            if i < n {
                assert(forests[i] == front[i]);
            }
        }
        assert forall|i: int, j: int| 0 <= i <= j < forests.len() implies forests[i].root.number
            <= forests[j].root.number by {
            if j < n {
                assert(forests[i] == front[i]);
                assert(forests[j] == front[j]);
            } else if i < n {
                assert(forests[i] == front[i]);
                assert(front[i].root.number <= front[n - 1].root.number);
            }
        }
    }
}

/// Whether `data` is the response to `request` of a node whose top finalized
/// block has height `local_top`, where `statuses[i]` is what its chain says
/// of the `i`-th height of the range that the request plans.
pub open spec fn answers(
    request: RequestView,
    local_top: u32,
    statuses: Seq<FinalizationStatus>,
    data: NetworkDataView,
) -> bool {
    match spec_request_plan(request.target_id, request.branch_knowledge, local_top) {
        RequestPlan::Range { from, to } => {
            &&& statuses.len() == to - from + 1
            &&& data matches NetworkDataView::RequestResponse(state, justifications)
            &&& state.number() == local_top
            &&& justifications == spec_select(from as int, statuses)
        },
        _ => false,
    }
}

/// Whether `data` bridges the gap that `request` states: it is what the
/// chain of the responder holds for the range that the request plans, and so
/// holds no justification of a height that the requester's knowledge covers,
/// none above the requested block, and each height once, in rising order.
pub open spec fn response_bridges(request: RequestView, data: NetworkDataView) -> bool {
    &&& exists|local_top: u32, statuses: Seq<FinalizationStatus>| #[trigger]
        answers(request, local_top, statuses, data)
    &&& data matches NetworkDataView::RequestResponse(_, justifications)
    &&& forall|i: int|
        0 <= i < justifications.len() ==> request.branch_knowledge.spec_covered() < (
        #[trigger] justifications[i]).number() <= request.target_id.number
    &&& forall|i: int, j: int|
        0 <= i < j < justifications.len() ==> justifications[i].number()
            < justifications[j].number()
}

/// Whether the forest holds no block ready at the height above the
/// frontier, nor at the end of that height's session, where sessions have
/// `period` blocks.
pub open spec fn nothing_ready(forest: ForestView, period: int) -> bool {
    next_ready(forest, period) is None
}

/// The block that is finalized next: the ready block at the height above the
/// frontier, or else the ready block at the end of that height's session,
/// where sessions have `period` blocks.
pub open spec fn next_ready(forest: ForestView, period: int) -> Option<BlockId> {
    let next = forest.root.number + 1;
    let last = clip(last_block_of(session_of(next, period), period));
    if next > u32::MAX {
        None
    } else if forest.ready_height(next as u32) {
        Some(forest.ready_at(next as u32))
    } else if forest.ready_height(last) {
        Some(forest.ready_at(last))
    } else {
        None
    }
}

/// The failure that a result holds, if it holds one.
pub open spec fn error_of<T, E>(result: Result<T, E>) -> Option<E> {
    match result {
        Ok(_) => None,
        Err(error) => Some(error),
    }
}

/// Whether the finalizer, handed the block `id` with a justification of the
/// contents `handed`, failed, and `failure` is its failure.
pub open spec fn finalizer_failed<F: Finalizer, CE, VE>(
    finalizer: F,
    id: BlockId,
    handed: JustificationView,
    failure: Option<Error<CE, VE, F::Error>>,
) -> bool {
    exists|justification: Justification, error: F::Error|
        {
            &&& justification@ == handed
            &&& #[trigger] finalizer.finalize_gives(
                id,
                justification,
                Err::<(), F::Error>(error),
            )
            &&& failure == Some(Error::<CE, VE, F::Error>::Finalizer(error))
        }
}

/// Whether the finalizer, handed the block `id` with a justification of the
/// contents `handed`, made the block final.
pub open spec fn finalizer_passed<F: Finalizer>(
    finalizer: F,
    id: BlockId,
    handed: JustificationView,
) -> bool {
    exists|justification: Justification, answer: Result<(), F::Error>|
        {
            &&& justification@ == handed
            &&& #[trigger] finalizer.finalize_gives(id, justification, answer)
            &&& answer is Ok
        }
}

/// Whether `after` and `failure` are what finalizing the forest `before`
/// gives. As long as a block is ready, it becomes the frontier and is handed
/// to the finalizer with its justification. Where the finalizer fails, the
/// finalizing ends with its failure; where no block is ready any more, it
/// ends without one.
pub open spec fn finalized_through<F: Finalizer, CE, VE>(
    finalizer: F,
    period: int,
    before: ForestView,
    after: ForestView,
    failure: Option<Error<CE, VE, F::Error>>,
) -> bool
    decreases u32::MAX - before.root.number,
{
    match next_ready(before, period) {
        None => after == before && failure is None,
        Some(id) => {
            let handed = before.vertices[id].justification->0;
            let rooted = before.rooted_at(id);
            (after == rooted && finalizer_failed(finalizer, id, handed, failure)) || (
            finalizer_passed(finalizer, id, handed) && id.number > before.root.number
                && finalized_through(finalizer, period, rooted, after, failure))
        },
    }
}

/// What holds after a verified justification was handled. A justification
/// that the forest refuses changes nothing and fails with the refusal.
/// Otherwise the forest takes it in, and what is ready is finalized: either
/// to the end, and then the justified block is handed back if it is news, or
/// up to the block at which the finalizer failed.
pub open spec fn justification_handled<CE, VE, F: Finalizer>(
    finalizer: F,
    before: ForestView,
    after: ForestView,
    period: int,
    justification: JustificationView,
    holder: Option<PeerId>,
    result: Result<Option<BlockId>, Error<CE, VE, F::Error>>,
) -> bool {
    match before.update_justification(justification, holder) {
        (_, Err(refusal)) => result == Err::<Option<BlockId>, Error<CE, VE, F::Error>>(
            Error::Forest(refusal),
        ) && after == before,
        (updated, Ok(higher)) => {
            &&& finalized_from(updated, after)
            &&& finalized_through(finalizer, period, updated, after, error_of(result))
            &&& match result {
                Ok(extended) => extended == if higher {
                    Some(justification.id())
                } else {
                    None
                } && nothing_ready(after, period),
                Err(error) => error is Finalizer,
            }
        },
    }
}

/// What holds after the import of a block was handled. An import that the
/// forest refuses changes nothing and fails with the refusal. Otherwise the
/// forest records it, and what is ready is finalized: to the end, or up to
/// the block at which the finalizer failed.
pub open spec fn import_handled<CE, VE, F: Finalizer>(
    finalizer: F,
    before: ForestView,
    after: ForestView,
    period: int,
    header: HeaderView,
    failure: Option<Error<CE, VE, F::Error>>,
) -> bool {
    match before.update_body(header) {
        (_, Err(refusal)) => failure == Some(Error::<CE, VE, F::Error>::Forest(refusal))
            && after == before,
        (updated, Ok(_)) => {
            &&& finalized_from(updated, after)
            &&& finalized_through(finalizer, period, updated, after, failure)
            &&& match failure {
                None => nothing_ready(after, period),
                Some(error) => error is Finalizer,
            }
        },
    }
}

/// Whether `failure` is the outcome of rebuilding the forest from the chain:
/// the forest knows the top finalized block that the chain gave and nothing
/// else, or it stays as it is where the chain gave none, and the failure of
/// the chain is handed on.
pub open spec fn forest_rebuilt<CS: ChainStatus, VE, FE>(
    chain: CS,
    before: ForestView,
    after: ForestView,
    failure: Option<Error<CS::Error, VE, FE>>,
) -> bool {
    match failure {
        None => exists|top: JustificationView|
            #[trigger] top_known(chain, top) && after == ForestView::fresh(top.id()),
        Some(Error::ChainStatus(error)) => after == before && chain.top_finalized_gives(
            Err::<Justification, CS::Error>(error),
        ),
        Some(_) => false,
    }
}

/// The justification that ends a session, as what the chain says of its last
/// height `number` gives it: the justification that the chain holds for the
/// height, the failure of the chain, or that the chain holds none.
pub open spec fn session_end_of<CE, VE, FE>(
    status: Result<FinalizationStatus, CE>,
    number: u32,
) -> Result<JustificationView, Error<CE, VE, FE>> {
    match status {
        Err(error) => Err(Error::ChainStatus(error)),
        Ok(found) => match found.justification_for(number as int) {
            Some(justification) => Ok(justification),
            None => Err(Error::MissingJustification),
        },
    }
}

/// Whether `answer` is the justification of the height `number` as the
/// chain gives it.
pub open spec fn session_end_given<CS: ChainStatus, VE, FE>(
    chain: CS,
    number: u32,
    answer: Result<JustificationView, Error<CS::Error, VE, FE>>,
) -> bool {
    exists|status: Result<FinalizationStatus, CS::Error>|
        {
            &&& #[trigger] chain.finalized_at_gives(number, status)
            &&& answer == session_end_of::<CS::Error, VE, FE>(status, number)
        }
}

/// Whether `result` is the response to a state with the justifications
/// `first` and `second`: the response holds both, and fails with the first
/// failure where one of them could not be had.
pub open spec fn responded<E>(
    first: Result<JustificationView, E>,
    second: Result<JustificationView, E>,
    result: Result<SyncAction, E>,
) -> bool {
    match first {
        Err(error) => result == Err::<SyncAction, E>(error),
        Ok(sent) => match second {
            Err(error) => result == Err::<SyncAction, E>(error),
            Ok(also) => result matches Ok(action) && action@ == SyncActionView::Response(
                NetworkDataView::StateBroadcastResponse(sent, Some(also)),
            ),
        },
    }
}

/// The contents of a justification that was had or not.
pub open spec fn had<E>(result: Result<Justification, E>) -> Result<JustificationView, E> {
    match result {
        Ok(justification) => Ok(justification@),
        Err(error) => Err(error),
    }
}

/// What holds after the state of a peer was handled, where the verifier
/// passed `remote_top` as the peer's top justification and `local_top` is
/// the node's own.
///
/// The justification of a peer that is level or ahead is handled as any
/// justification, and a task recommended for its block if it is news. A peer
/// that is behind in the node's session is sent the node's top justification;
/// one that is a session behind, the justification that ends its session and
/// the node's top justification; one that is further behind, the
/// justifications that end its session and the next. Where the chain does not
/// hold these, the handling fails. The forest stays as it is in all three.
pub open spec fn reacted_to_state<CS: ChainStatus, VE, F: Finalizer>(
    chain: CS,
    finalizer: F,
    before: ForestView,
    after: ForestView,
    period: int,
    remote_top: JustificationView,
    local_top: JustificationView,
    peer: PeerId,
    result: Result<SyncAction, Error<CS::Error, VE, F::Error>>,
) -> bool {
    let remote_session = session_of(remote_top.number() as int, period);
    match spec_state_reaction(period, local_top.number(), remote_top.number()) {
        StateReaction::Import => match before.update_justification(remote_top, Some(peer)) {
            (_, Err(refusal)) => result == Err::<SyncAction, Error<CS::Error, VE, F::Error>>(
                Error::Forest(refusal),
            ) && after == before,
            (updated, Ok(higher)) => {
                &&& finalized_from(updated, after)
                &&& finalized_through(finalizer, period, updated, after, error_of(result))
                &&& match result {
                    Ok(action) => action@ == spec_follow_up(
                        if higher {
                            Some(remote_top.id())
                        } else {
                            None
                        },
                    ) && nothing_ready(after, period),
                    Err(error) => error is Finalizer,
                }
            },
        },
        StateReaction::SendTop => {
            &&& after == before
            &&& result matches Ok(action)
            &&& action@ == SyncActionView::Response(
                NetworkDataView::StateBroadcastResponse(local_top, None),
            )
        },
        StateReaction::SendSessionEndAndTop => {
            &&& after == before
            &&& exists|first: Result<JustificationView, Error<CS::Error, VE, F::Error>>|
                {
                    &&& #[trigger] session_end_given(
                        chain,
                        clip(last_block_of(remote_session, period)),
                        first,
                    )
                    &&& responded(first, Ok(local_top), result)
                }
        },
        StateReaction::SendSessionEnds => {
            &&& after == before
            &&& exists|first: Result<JustificationView, Error<CS::Error, VE, F::Error>>|
                {
                    &&& #[trigger] session_end_given(
                        chain,
                        clip(last_block_of(remote_session, period)),
                        first,
                    )
                    &&& match first {
                        Err(error) => result == Err::<
                            SyncAction,
                            Error<CS::Error, VE, F::Error>,
                        >(error),
                        Ok(_) => exists|
                            second: Result<JustificationView, Error<CS::Error, VE, F::Error>>,
                        |
                            {
                                &&& #[trigger] session_end_given(
                                    chain,
                                    clip(last_block_of(remote_session + 1, period)),
                                    second,
                                )
                                &&& responded(first, second, result)
                            },
                    }
                }
        },
    }
}

/// A state that a peer announces twice asks for a block once at most: after
/// the node reacted to the state, its reaction to the same state from the
/// same peer recommends no task, provided that the node's own top finalized
/// block has not moved down in between.
pub proof fn lemma_state_announced_twice_asks_once<CS: ChainStatus, VE, F: Finalizer>(
    chain: CS,
    finalizer: F,
    before: ForestView,
    between: ForestView,
    after: ForestView,
    period: int,
    remote_top: JustificationView,
    local_top: JustificationView,
    later_local_top: JustificationView,
    peer: PeerId,
    first: Result<SyncAction, Error<CS::Error, VE, F::Error>>,
    second: Result<SyncAction, Error<CS::Error, VE, F::Error>>,
)
    requires
        before.wf(),
        period > 0,
        later_local_top.number() >= local_top.number(),
        reacted_to_state(
            chain,
            finalizer,
            before,
            between,
            period,
            remote_top,
            local_top,
            peer,
            first,
        ),
        reacted_to_state(
            chain,
            finalizer,
            between,
            after,
            period,
            remote_top,
            later_local_top,
            peer,
            second,
        ),
    ensures
        !(second matches Ok(SyncAction::Task(_))),
{
    crate::policy::lemma_response_only_to_peers_behind(
        period,
        local_top.number(),
        remote_top.number(),
    );
    crate::policy::lemma_response_only_to_peers_behind(
        period,
        later_local_top.number(),
        remote_top.number(),
    );
    if spec_state_reaction(period, later_local_top.number(), remote_top.number())
        == StateReaction::Import {
        if before.update_justification(remote_top, Some(peer)).1 is Ok {
            lemma_repeated_justification_is_no_news(before, remote_top, Some(peer), between);
        }
    }
}

/// Whether the chain gives a justification of the contents `top` as its top
/// finalized block.
pub open spec fn top_known<CS: ChainStatus>(chain: CS, top: JustificationView) -> bool {
    exists|answer: Justification|
        #[trigger] chain.top_finalized_gives(Ok::<Justification, CS::Error>(answer)) && answer@
            == top
}

/// Whether `result` is the node's state as the chain gives it: the state
/// holds the top justification that the chain gave, and fails with the
/// failure of the chain where it gave none.
pub open spec fn state_given<CS: ChainStatus, VE, FE>(
    chain: CS,
    result: Result<State, Error<CS::Error, VE, FE>>,
) -> bool {
    match result {
        Ok(state) => top_known(chain, state@),
        Err(Error::ChainStatus(error)) => chain.top_finalized_gives(
            Err::<Justification, CS::Error>(error),
        ),
        Err(_) => false,
    }
}

/// Whether `statuses` is what the chain gives for the heights from `from`
/// on, one after another.
pub open spec fn statuses_given<CS: ChainStatus>(
    chain: CS,
    from: u32,
    statuses: Seq<FinalizationStatus>,
) -> bool {
    forall|i: int|
        0 <= i < statuses.len() ==> from + i <= u32::MAX && chain.finalized_at_gives(
            (from + i) as u32,
            Ok::<FinalizationStatus, CS::Error>(#[trigger] statuses[i]),
        )
}

/// Whether the chain fails with `error` when asked what is final at some
/// height from `from` to `to`.
pub open spec fn status_refused<CS: ChainStatus>(
    chain: CS,
    from: u32,
    to: u32,
    error: CS::Error,
) -> bool {
    exists|number: u32|
        from <= number <= to && #[trigger] chain.finalized_at_gives(
            number,
            Err::<FinalizationStatus, CS::Error>(error),
        )
}

/// Whether `result` serves the heights `from` to `to` of a request: it is
/// the response with the node's state and the justifications that the chain
/// gives for those heights, or the failure of the chain at one of them.
pub open spec fn range_served<CS: ChainStatus, VE, FE>(
    chain: CS,
    local_top: JustificationView,
    from: u32,
    to: u32,
    result: Result<SyncAction, Error<CS::Error, VE, FE>>,
) -> bool {
    match result {
        Ok(action) => exists|statuses: Seq<FinalizationStatus>|
            {
                &&& #[trigger] statuses_given(chain, from, statuses)
                &&& statuses.len() == to - from + 1
                &&& action@ == SyncActionView::Response(
                    NetworkDataView::RequestResponse(
                        local_top,
                        spec_select(from as int, statuses),
                    ),
                )
            },
        Err(Error::ChainStatus(error)) => status_refused(chain, from, to, error),
        Err(_) => false,
    }
}

/// Whether `result` decides a request whose plan is the range `from` to
/// `to`, where the chain says `target_status` of the requested block. The
/// chain is asked how far the node has the block that the requester's
/// knowledge names. Where the node has imported the requested block and
/// knows the other, the range is served; otherwise the request is passed
/// over. A failure of the chain is the failure of the request.
pub open spec fn knowledge_decided<CS: ChainStatus, VE, FE>(
    chain: CS,
    request: RequestView,
    local_top: JustificationView,
    from: u32,
    to: u32,
    target_status: BlockStatus,
    result: Result<SyncAction, Error<CS::Error, VE, FE>>,
) -> bool {
    exists|knowledge: Result<BlockStatus, CS::Error>|
        {
            &&& #[trigger] chain.block_status_gives(request.branch_knowledge.spec_id(), knowledge)
            &&& match knowledge {
                Err(error) => result matches Err(Error::ChainStatus(reported)) && reported
                    == error,
                Ok(knowledge_status) => if spec_serves(target_status, knowledge_status) {
                    range_served(chain, local_top, from, to, result)
                } else {
                    result matches Ok(action) && action@ == SyncActionView::Noop
                },
            }
        }
}

/// Whether `result` decides a request whose plan is the range `from` to
/// `to`. The chain is asked how far the node has the requested block, and
/// then how far it has the block that the requester's knowledge names. A
/// failure of the chain is the failure of the request.
pub open spec fn range_decided<CS: ChainStatus, VE, FE>(
    chain: CS,
    request: RequestView,
    local_top: JustificationView,
    from: u32,
    to: u32,
    result: Result<SyncAction, Error<CS::Error, VE, FE>>,
) -> bool {
    exists|target: Result<BlockStatus, CS::Error>|
        {
            &&& #[trigger] chain.block_status_gives(request.target_id, target)
            &&& match target {
                Err(error) => result matches Err(Error::ChainStatus(reported)) && reported
                    == error,
                Ok(target_status) => knowledge_decided(
                    chain,
                    request,
                    local_top,
                    from,
                    to,
                    target_status,
                    result,
                ),
            }
        }
}

/// A request with a range is decided by what the chain says of the
/// requested block and of the block that the requester's knowledge names.
pub proof fn lemma_range_decided<CS: ChainStatus, VE, FE>(
    chain: CS,
    request: RequestView,
    local_top: JustificationView,
    from: u32,
    to: u32,
    target: Result<BlockStatus, CS::Error>,
    knowledge: Result<BlockStatus, CS::Error>,
    result: Result<SyncAction, Error<CS::Error, VE, FE>>,
)
    requires
        chain.block_status_gives(request.target_id, target),
        target is Ok,
        chain.block_status_gives(request.branch_knowledge.spec_id(), knowledge),
        match knowledge {
            Err(error) => result matches Err(Error::ChainStatus(reported)) && reported == error,
            Ok(knowledge_status) => if spec_serves(target->Ok_0, knowledge_status) {
                range_served(chain, local_top, from, to, result)
            } else {
                result matches Ok(action) && action@ == SyncActionView::Noop
            },
        },
    ensures
        range_decided(chain, request, local_top, from, to, result),
{
    assert(knowledge_decided(chain, request, local_top, from, to, target->Ok_0, result));
}

/// Whether `result` decides `request` at a node with the chain `chain`.
///
/// The chain is asked for its top finalized block, and the request is
/// planned against its height. A request that names a block below the
/// horizon fails. A request that asks for nothing that the node has
/// finalized is passed over. Any other is decided by its range. A failure
/// of the chain is the failure of the request.
pub open spec fn request_decided<CS: ChainStatus, VE, FE>(
    chain: CS,
    request: RequestView,
    result: Result<SyncAction, Error<CS::Error, VE, FE>>,
) -> bool {
    exists|top: Result<Justification, CS::Error>|
        {
            &&& #[trigger] chain.top_finalized_gives(top)
            &&& match top {
                Err(error) => result matches Err(Error::ChainStatus(reported)) && reported
                    == error,
                Ok(local_top) => match spec_request_plan(
                    request.target_id,
                    request.branch_knowledge,
                    local_top@.number(),
                ) {
                    RequestPlan::BelowHorizon => result matches Err(Error::BelowHorizon),
                    RequestPlan::Nothing => result matches Ok(action) && action@
                        == SyncActionView::Noop,
                    RequestPlan::Range { from, to } => range_decided(
                        chain,
                        request,
                        local_top@,
                        from,
                        to,
                        result,
                    ),
                },
            }
        }
}

/// Whether `result` decides the state of a peer whose top justification the
/// verifier passed as `remote_top`. The chain is asked for the node's own top
/// finalized block; where it fails, the state fails with its failure and the
/// forest stays as it is. Otherwise the node reacts to the verified state.
pub open spec fn verified_state_decided<CS: ChainStatus, VE, F: Finalizer>(
    chain: CS,
    finalizer: F,
    before: ForestView,
    after: ForestView,
    period: int,
    remote_top: JustificationView,
    peer: PeerId,
    result: Result<SyncAction, Error<CS::Error, VE, F::Error>>,
) -> bool {
    exists|top: Result<Justification, CS::Error>|
        {
            &&& #[trigger] chain.top_finalized_gives(top)
            &&& match top {
                Err(error) => {
                    &&& result matches Err(Error::ChainStatus(reported)) && reported == error
                    &&& after == before
                },
                Ok(local_top) => reacted_to_state(
                    chain,
                    finalizer,
                    before,
                    after,
                    period,
                    remote_top,
                    local_top@,
                    peer,
                    result,
                ),
            }
        }
}

/// Whether `result` decides the state `state` that `peer` announced.
///
/// The verifier is asked for its verdict on the top justification of the
/// state; where it refuses, the state is refused with its refusal and the
/// forest stays as it is. Otherwise the state is decided as a verified one.
pub open spec fn state_decided<CS: ChainStatus, V: Verifier, F: Finalizer>(
    checker: V,
    chain: CS,
    finalizer: F,
    before: ForestView,
    after: ForestView,
    period: int,
    state: JustificationView,
    peer: PeerId,
    result: Result<SyncAction, Error<CS::Error, V::Error, F::Error>>,
) -> bool {
    exists|submitted: Justification, verdict: Result<Justification, V::Error>|
        {
            &&& submitted@ == state
            &&& #[trigger] checker.verify_gives(submitted, verdict)
            &&& match verdict {
                Err(error) => {
                    &&& result matches Err(Error::Verifier(reported)) && reported == error
                    &&& after == before
                },
                Ok(remote_top) => verified_state_decided(
                    chain,
                    finalizer,
                    before,
                    after,
                    period,
                    remote_top@,
                    peer,
                    result,
                ),
            }
        }
}

/// Whether the verifier gives one verdict on one justification: whatever it
/// is handed with the same contents, it refuses every time or passes every
/// time, and what it passes has the same contents.
pub open spec fn verdicts_agree<V: Verifier>(checker: V) -> bool {
    forall|
        one: Justification,
        other: Justification,
        first: Result<Justification, V::Error>,
        second: Result<Justification, V::Error>,
    |
        #![trigger checker.verify_gives(one, first), checker.verify_gives(other, second)]
        checker.verify_gives(one, first) && checker.verify_gives(other, second) && one@
            == other@ ==> match (first, second) {
            (Ok(passed), Ok(again)) => passed@ == again@,
            (Err(_), Err(_)) => true,
            _ => false,
        }
}

/// Whether the chain gives its top finalized block whenever it is asked, and
/// always at the height `height`.
pub open spec fn top_stays<CS: ChainStatus>(chain: CS, height: u32) -> bool {
    forall|answer: Result<Justification, CS::Error>|
        #[trigger] chain.top_finalized_gives(answer) ==> (answer matches Ok(top) && top@.number()
            == height)
}

/// A state that a peer announces twice asks for a block once at most: while
/// the verifier gives one verdict on one justification and the top of the
/// chain stays where it is, the decision on a state that was decided before
/// recommends no task.
pub proof fn lemma_state_decided_twice_asks_once<CS: ChainStatus, V: Verifier, F: Finalizer>(
    checker: V,
    chain: CS,
    finalizer: F,
    before: ForestView,
    between: ForestView,
    after: ForestView,
    period: int,
    height: u32,
    state: JustificationView,
    peer: PeerId,
    first: Result<SyncAction, Error<CS::Error, V::Error, F::Error>>,
    second: Result<SyncAction, Error<CS::Error, V::Error, F::Error>>,
)
    requires
        before.wf(),
        period > 0,
        verdicts_agree(checker),
        top_stays(chain, height),
        state_decided(checker, chain, finalizer, before, between, period, state, peer, first),
        state_decided(checker, chain, finalizer, between, after, period, state, peer, second),
    ensures
        !(second matches Ok(SyncAction::Task(_))),
{
    let (one, verdict) = choose|one: Justification, verdict: Result<Justification, V::Error>|
        {
            &&& one@ == state
            &&& #[trigger] checker.verify_gives(one, verdict)
            &&& match verdict {
                Err(error) => {
                    &&& first matches Err(Error::Verifier(reported)) && reported == error
                    &&& between == before
                },
                Ok(remote_top) => verified_state_decided(
                    chain,
                    finalizer,
                    before,
                    between,
                    period,
                    remote_top@,
                    peer,
                    first,
                ),
            }
        };
    let (other, again) = choose|other: Justification, again: Result<Justification, V::Error>|
        {
            &&& other@ == state
            &&& #[trigger] checker.verify_gives(other, again)
            &&& match again {
                Err(error) => {
                    &&& second matches Err(Error::Verifier(reported)) && reported == error
                    &&& after == between
                },
                Ok(remote_top) => verified_state_decided(
                    chain,
                    finalizer,
                    between,
                    after,
                    period,
                    remote_top@,
                    peer,
                    second,
                ),
            }
        };
    assert(checker.verify_gives(one, verdict) && checker.verify_gives(other, again));
    match (verdict, again) {
        (Ok(passed), Ok(repeated)) => {
            assert(passed@ == repeated@);
            let top = choose|top: Result<Justification, CS::Error>|
                {
                    &&& #[trigger] chain.top_finalized_gives(top)
                    &&& match top {
                        Err(error) => {
                            &&& first matches Err(Error::ChainStatus(reported)) && reported
                                == error
                            &&& between == before
                        },
                        Ok(local_top) => reacted_to_state(
                            chain,
                            finalizer,
                            before,
                            between,
                            period,
                            passed@,
                            local_top@,
                            peer,
                            first,
                        ),
                    }
                };
            let later = choose|later: Result<Justification, CS::Error>|
                {
                    &&& #[trigger] chain.top_finalized_gives(later)
                    &&& match later {
                        Err(error) => {
                            &&& second matches Err(Error::ChainStatus(reported)) && reported
                                == error
                            &&& after == between
                        },
                        Ok(local_top) => reacted_to_state(
                            chain,
                            finalizer,
                            between,
                            after,
                            period,
                            repeated@,
                            local_top@,
                            peer,
                            second,
                        ),
                    }
                };
            assert(top is Ok && later is Ok);
            lemma_state_announced_twice_asks_once(
                chain,
                finalizer,
                before,
                between,
                after,
                period,
                passed@,
                top->Ok_0@,
                later->Ok_0@,
                peer,
                first,
                second,
            );
        },
        _ => {},
    }
}

/// Whether `result` decides the justification `justification` that came
/// from `peer` or, with no peer, from the user.
///
/// The verifier is asked for its verdict on the justification; where it
/// refuses, the justification is refused with its refusal and the forest
/// stays as it is. Otherwise what the verifier passed is handled.
pub open spec fn justification_decided<CE, V: Verifier, F: Finalizer>(
    checker: V,
    finalizer: F,
    before: ForestView,
    after: ForestView,
    period: int,
    justification: JustificationView,
    peer: Option<PeerId>,
    result: Result<Option<BlockId>, Error<CE, V::Error, F::Error>>,
) -> bool {
    exists|submitted: Justification, verdict: Result<Justification, V::Error>|
        {
            &&& submitted@ == justification
            &&& #[trigger] checker.verify_gives(submitted, verdict)
            &&& match verdict {
                Err(error) => {
                    &&& result == Err::<Option<BlockId>, Error<CE, V::Error, F::Error>>(
                        Error::Verifier(error),
                    )
                    &&& after == before
                },
                Ok(verified) => justification_handled(
                    finalizer,
                    before,
                    after,
                    period,
                    verified@,
                    peer,
                    result,
                ),
            }
        }
}

/// Whether `result` is the outcome of building a handler on the chain
/// `chain`: its forest knows the top finalized block that the chain gave and
/// nothing else, and where the chain gave none, its failure is handed on.
pub open spec fn forest_planted<CS: ChainStatus, VE, FE>(
    chain: CS,
    result: Result<ForestView, Error<CS::Error, VE, FE>>,
) -> bool {
    match result {
        Ok(forest) => exists|top: JustificationView|
            #[trigger] top_known(chain, top) && forest == ForestView::fresh(top.id()),
        Err(Error::ChainStatus(error)) => chain.top_finalized_gives(
            Err::<Justification, CS::Error>(error),
        ),
        Err(_) => false,
    }
}

/// Handler for data incoming from the network.
pub struct Handler<CS: ChainStatus, V: Verifier, F: Finalizer> {
    chain_status: CS,
    verifier: V,
    finalizer: F,
    forest: Forest,
    session_info: SessionBoundaryInfo,
}

impl<CS: ChainStatus, V: Verifier, F: Finalizer> Handler<CS, V, F> {
    /// The forest that the handler keeps.
    pub closed spec fn forest(&self) -> ForestView {
        self.forest@
    }

    /// The chain that the handler consults.
    pub closed spec fn chain_status(&self) -> CS {
        self.chain_status
    }

    /// The verifier that the handler asks.
    pub closed spec fn checker(&self) -> V {
        self.verifier
    }

    /// The finalizer that the handler hands blocks to.
    pub closed spec fn finalizer(&self) -> F {
        self.finalizer
    }

    /// Whether the handler has the collaborators and the sessions that
    /// `before` has.
    pub open spec fn keeps(&self, before: Self) -> bool {
        &&& self.chain_status() == before.chain_status()
        &&& self.checker() == before.checker()
        &&& self.finalizer() == before.finalizer()
        &&& self.period() == before.period()
    }

    /// The number of blocks in a session.
    pub closed spec fn period(&self) -> int {
        self.session_info.period()
    }

    /// The forest is sound and sessions have at least one block.
    pub closed spec fn wf(&self) -> bool {
        self.forest.wf() && self.session_info.wf()
    }

    /// A well-formed handler has a well-formed forest and sessions of at least one block.
    pub proof fn lemma_wf(&self)
        requires
            self.wf(),
        ensures
            self.forest().wf(),
            self.period() > 0,
    {
    }

    /// A handler whose forest starts at `top`, the top finalized block.
    pub fn with_top(
        chain_status: CS,
        verifier: V,
        finalizer: F,
        period: SessionPeriod,
        top: BlockId,
    ) -> (handler: Self)
        requires
            period.0 > 0,
        ensures
            handler.wf(),
            handler.period() == period.0,
            handler.forest() == ForestView::fresh(top),
            handler.chain_status() == chain_status,
            handler.checker() == verifier,
            handler.finalizer() == finalizer,
    {
        Handler {
            chain_status,
            verifier,
            finalizer,
            forest: Forest::new(top),
            session_info: SessionBoundaryInfo::new(period),
        }
    }

    /// A handler whose forest starts at the top finalized block of the chain.
    pub fn new(chain_status: CS, verifier: V, finalizer: F, period: SessionPeriod) -> (result:
        Result<Self, Error<CS::Error, V::Error, F::Error>>)
        requires
            period.0 > 0,
        ensures
            match result {
                Ok(handler) => {
                    &&& handler.wf()
                    &&& handler.period() == period.0
                    &&& handler.chain_status() == chain_status
                    &&& handler.checker() == verifier
                    &&& handler.finalizer() == finalizer
                    &&& forest_planted(
                        chain_status,
                        Ok::<ForestView, Error<CS::Error, V::Error, F::Error>>(handler.forest()),
                    )
                },
                Err(error) => forest_planted(
                    chain_status,
                    Err::<ForestView, Error<CS::Error, V::Error, F::Error>>(error),
                ),
            },
    {
        let answer = chain_status.top_finalized();
        let top = match answer {
            Ok(top) => top,
            Err(error) => {
                return Err(Error::ChainStatus(error));
            },
        };
        proof {
            assert(chain_status.top_finalized_gives(Ok::<Justification, CS::Error>(top)));
            assert(top_known(chain_status, top@));
        }
        Ok(Self::with_top(chain_status, verifier, finalizer, period, top.id()))
    }

    /// The current state of our database.
    pub fn state(&self) -> (result: Result<State, Error<CS::Error, V::Error, F::Error>>)
        ensures
            result matches Err(error) ==> error is ChainStatus,
            state_given(self.chain_status(), result),
    {
        let answer = self.chain_status.top_finalized();
        match answer {
            Ok(top) => {
                proof {
                    assert(self.chain_status.top_finalized_gives(
                        Ok::<Justification, CS::Error>(top),
                    ));
                }
                Ok(State::new(top.into_unverified()))
            },
            Err(error) => Err(Error::ChainStatus(error)),
        }
    }

    /// The interest that the node has in the block `id`. There is none in a
    /// block at or below the finalized frontier.
    pub fn block_state(&self, id: &BlockId) -> (interest: Interest)
        requires
            self.wf(),
        ensures
            interest@ == self.forest().state(*id),
            interest.peers_distinct(),
            id.number <= self.forest().root.number ==> interest@ == InterestView::Uninterested,
    {
        self.forest.state(id)
    }

    /// The finalized frontier of the forest.
    pub fn frontier(&self) -> (root: BlockId)
        ensures
            root == self.forest().root,
    {
        self.forest.root()
    }

    /// Finalizes what the forest holds ready: block after block above the
    /// frontier, and the last block of the session where the next block is
    /// not ready.
    fn try_finalize(&mut self) -> (result: Result<(), Error<CS::Error, V::Error, F::Error>>)
        requires
            old(self).wf(),
        ensures
            final(self).wf(),
            final(self).keeps(*old(self)),
            finalized_from(old(self).forest(), final(self).forest()),
            finalized_through(
                old(self).finalizer(),
                old(self).period(),
                old(self).forest(),
                final(self).forest(),
                error_of(result),
            ),
            result matches Err(error) ==> error is Finalizer,
            result is Ok ==> nothing_ready(final(self).forest(), final(self).period()),
    {
        let ghost start = self.forest@;
        let ghost finalizer = self.finalizer;
        let ghost period = self.period();
        loop
            invariant
                self.wf(),
                start.wf(),
                start == old(self).forest@,
                self.keeps(*old(self)),
                finalizer == self.finalizer,
                period == self.period(),
                finalized_from(start, self.forest@),
                forall|after: ForestView, failure: Option<Error<CS::Error, V::Error, F::Error>>|
                    #[trigger] finalized_through(finalizer, period, self.forest@, after, failure)
                        ==> finalized_through(finalizer, period, start, after, failure),
            ensures
                self.wf(),
                self.keeps(*old(self)),
                finalized_from(start, self.forest@),
                nothing_ready(self.forest@, self.period()),
                finalized_through(
                    finalizer,
                    period,
                    start,
                    self.forest@,
                    None::<Error<CS::Error, V::Error, F::Error>>,
                ),
            decreases u32::MAX - self.forest@.root.number,
        {
            let root_number = self.forest.root().number;
            if root_number == u32::MAX {
                proof {
                    assert(finalized_through(
                        finalizer,
                        period,
                        self.forest@,
                        self.forest@,
                        None::<Error<CS::Error, V::Error, F::Error>>,
                    ));
                }
                break;
            }
            let next = root_number + 1;
            let ghost before = self.forest@;
            let number = match self.forest.try_finalize(next) {
                Some(justification) => Some((next, justification)),
                None => {
                    let session = self.session_info.session_id_from_block_num(next);
                    let last = self.session_info.last_block_of_session(session);
                    match self.forest.try_finalize(last) {
                        Some(justification) => Some((last, justification)),
                        None => None,
                    }
                },
            };
            match number {
                None => {
                    proof {
                        assert(next_ready(before, period) is None);
                        assert(finalized_through(
                            finalizer,
                            period,
                            self.forest@,
                            self.forest@,
                            None::<Error<CS::Error, V::Error, F::Error>>,
                        ));
                    }
                    break;
                },
                Some((height, justification)) => {
                    let id = justification.id();
                    let ghost handed = justification;
                    proof {
                        crate::forest_model::lemma_try_finalize_wf(before, height);
                        assert(before.ready(before.ready_at(height)));
                        assert(finalized_from(before, self.forest@));
                        lemma_finalized_from_chains(start, before, self.forest@);
                        assert(next_ready(before, period) == Some(id));
                        assert(self.forest@ == before.rooted_at(id));
                        assert(Some(handed@) == before.vertices[id].justification);
                    }
                    let answer = self.finalizer.finalize(id, justification);
                    let ghost given = answer;
                    proof {
                        assert(finalizer.finalize_gives(id, handed, given));
                    }
                    match answer {
                        Ok(_) => {
                            proof {
                                assert(finalizer_passed(finalizer, id, handed@));
                                assert forall|
                                    after: ForestView,
                                    failure: Option<Error<CS::Error, V::Error, F::Error>>,
                                | #[trigger]
                                    finalized_through(
                                        finalizer,
                                        period,
                                        self.forest@,
                                        after,
                                        failure,
                                    ) implies finalized_through(
                                    finalizer,
                                    period,
                                    start,
                                    after,
                                    failure,
                                ) by {
                                    assert(finalized_through(
                                        finalizer,
                                        period,
                                        before,
                                        after,
                                        failure,
                                    ));
                                }
                            }
                        },
                        Err(error) => {
                            let result = Err(Error::Finalizer(error));
                            proof {
                                assert(given == Err::<(), F::Error>(error));
                                assert(finalizer_failed(
                                    finalizer,
                                    id,
                                    handed@,
                                    error_of(result),
                                ));
                                assert(finalized_through(
                                    finalizer,
                                    period,
                                    before,
                                    self.forest@,
                                    error_of(result),
                                ));
                            }
                            return result;
                        },
                    }
                },
            }
        }
        Ok(())
    }

    /// Takes in a justification that the verifier has passed, and finalizes
    /// what has become ready. Hands back the justified block if it is higher
    /// than every block known to be justified before.
    pub fn handle_verified_justification(
        &mut self,
        justification: Justification,
        maybe_peer: Option<PeerId>,
    ) -> (result: Result<Option<BlockId>, Error<CS::Error, V::Error, F::Error>>)
        requires
            old(self).wf(),
        ensures
            final(self).wf(),
            final(self).keeps(*old(self)),
            justification_handled(
                old(self).finalizer(),
                old(self).forest(),
                final(self).forest(),
                old(self).period(),
                justification@,
                maybe_peer,
                result,
            ),
            final(self).forest().root.number >= old(self).forest().root.number,
            final(self).forest().highest_justified.number >= old(
                self,
            ).forest().highest_justified.number,
            result matches Ok(Some(id)) ==> id.number > old(self).forest().highest_justified.number
                && final(self).forest().highest_justified.number >= id.number,
    {
        let id = justification.id();
        proof {
            crate::forest_model::lemma_update_justification_wf(
                self.forest@,
                justification@,
                maybe_peer,
            );
        }
        let ghost before = self.forest@;
        let ghost content = justification@;
        let higher = match self.forest.update_justification(justification, maybe_peer) {
            Ok(higher) => higher,
            Err(refusal) => {
                return Err(Error::Forest(refusal));
            },
        };
        let ghost updated = self.forest@;
        let outcome = self.try_finalize();
        proof {
            lemma_finalized_from_wf(updated, self.forest@);
            lemma_highest_justified_rises(before, content, maybe_peer, self.forest@);
        }
        match outcome {
            Ok(()) => Ok(
                if higher {
                    Some(id)
                } else {
                    None
                },
            ),
            Err(error) => Err(error),
        }
    }

    /// Handles a justification, from a peer or from the user: has it
    /// verified, takes it in and finalizes what has become ready. The
    /// finalized frontier never moves down.
    pub fn handle_justification(
        &mut self,
        justification: Justification,
        maybe_peer: Option<PeerId>,
    ) -> (result: Result<Option<BlockId>, Error<CS::Error, V::Error, F::Error>>)
        requires
            old(self).wf(),
        ensures
            final(self).wf(),
            final(self).keeps(*old(self)),
            justification_decided(
                old(self).checker(),
                old(self).finalizer(),
                old(self).forest(),
                final(self).forest(),
                old(self).period(),
                justification@,
                maybe_peer,
                result,
            ),
            final(self).forest().root.number >= old(self).forest().root.number,
            final(self).forest().highest_justified.number >= old(
                self,
            ).forest().highest_justified.number,
            result matches Ok(Some(id)) ==> id.number > old(self).forest().highest_justified.number
                && final(self).forest().highest_justified.number >= id.number,
    {
        let ghost submitted = justification;
        let verdict = self.verifier.verify(justification);
        proof {
            assert(self.verifier.verify_gives(submitted, verdict));
        }
        let verified = match verdict {
            Ok(verified) => verified,
            Err(error) => {
                return Err(Error::Verifier(error));
            },
        };
        self.handle_verified_justification(verified, maybe_peer)
    }

    /// Inform the handler that a block has been imported.
    pub fn block_imported(&mut self, header: Header) -> (result: Result<
        (),
        Error<CS::Error, V::Error, F::Error>,
    >)
        requires
            old(self).wf(),
        ensures
            final(self).wf(),
            final(self).keeps(*old(self)),
            import_handled(
                old(self).finalizer(),
                old(self).forest(),
                final(self).forest(),
                old(self).period(),
                header@,
                error_of(result),
            ),
            final(self).forest().root.number >= old(self).forest().root.number,
    {
        proof {
            crate::forest_model::lemma_update_body_wf(self.forest@, header@);
        }
        match self.forest.update_body(&header) {
            Ok(()) => {},
            Err(refusal) => {
                return Err(Error::Forest(refusal));
            },
        }
        let ghost updated = self.forest@;
        let outcome = self.try_finalize();
        proof {
            lemma_finalized_from_wf(updated, self.forest@);
        }
        outcome
    }

    /// Records that the user asked for the block `id`, and recommends a task
    /// for it if nobody had asked for it before.
    pub fn handle_internal_request(&mut self, id: &BlockId) -> (result: Result<
        SyncAction,
        Error<CS::Error, V::Error, F::Error>,
    >)
        requires
            old(self).wf(),
        ensures
            final(self).wf(),
            final(self).keeps(*old(self)),
            final(self).forest() == old(self).forest().update_block_identifier(*id, None, true).0,
            match old(self).forest().update_block_identifier(*id, None, true).1 {
                Err(refusal) => result == Err::<SyncAction, Error<CS::Error, V::Error, F::Error>>(
                    Error::Forest(refusal),
                ),
                Ok(newly) => result is Ok && result->Ok_0@ == if newly {
                    SyncActionView::Task(*id)
                } else {
                    SyncActionView::Noop
                },
            },
    {
        match self.forest.update_block_identifier(*id, None, true) {
            Ok(true) => Ok(SyncAction::Task(*id)),
            Ok(false) => Ok(SyncAction::Noop),
            Err(refusal) => Err(Error::Forest(refusal)),
        }
    }

    /// The justification with which `session` ends, from the chain.
    fn last_justification_unverified(&self, session: SessionId) -> (result: Result<
        Justification,
        Error<CS::Error, V::Error, F::Error>,
    >)
        requires
            self.wf(),
        ensures
            session_end_given(
                self.chain_status(),
                clip(last_block_of(session.0 as int, self.period())),
                had(result),
            ),
    {
        let number = self.session_info.last_block_of_session(session);
        let answer = self.chain_status.finalized_at(number);
        let ghost given = answer;
        proof {
            assert(self.chain_status.finalized_at_gives(number, given));
        }
        let status = match answer {
            Ok(status) => status,
            Err(error) => {
                return Err(Error::ChainStatus(error));
            },
        };
        match status.has_justification(number) {
            Some(justification) => Ok(justification.into_unverified()),
            None => Err(Error::MissingJustification),
        }
    }

    /// Reacts to the state of a peer, given the peer's top justification as
    /// the verifier passed it and the node's own top justification.
    ///
    /// The justification of a peer that is level or ahead is taken in, and a
    /// task recommended if it is news. A peer that is behind gets a response
    /// with what it needs next.
    pub fn handle_verified_state(
        &mut self,
        remote_top: Justification,
        local_top: Justification,
        peer: PeerId,
    ) -> (result: Result<SyncAction, Error<CS::Error, V::Error, F::Error>>)
        requires
            old(self).wf(),
        ensures
            final(self).wf(),
            final(self).keeps(*old(self)),
            reacted_to_state(
                old(self).chain_status(),
                old(self).finalizer(),
                old(self).forest(),
                final(self).forest(),
                old(self).period(),
                remote_top@,
                local_top@,
                peer,
                result,
            ),
            final(self).forest().root.number >= old(self).forest().root.number,
            result matches Ok(SyncAction::Noop) ==> remote_top@.number() <= old(
                self,
            ).forest().highest_justified.number,
            result matches Ok(SyncAction::Task(id)) ==> id.number > old(
                self,
            ).forest().highest_justified.number,
            result matches Ok(SyncAction::Response(data)) ==> {
                &&& final(self).forest() == old(self).forest()
                &&& data@ is StateBroadcastResponse
            },
            result matches Err(error) ==> !(error is BelowHorizon) && !(error is Verifier),
    {
        let remote_number = remote_top.id().number;
        let local_number = local_top.id().number;
        let remote_session = self.session_info.session_id_from_block_num(remote_number);
        proof {
            if self.forest@.update_justification(remote_top@, Some(peer)).1 == Ok::<
                bool,
                ForestError,
            >(false) {
                lemma_no_news_is_not_ahead(self.forest@, remote_top@, Some(peer));
            }
        }
        match state_reaction(&self.session_info, local_number, remote_number) {
            StateReaction::Import => {
                match self.handle_verified_justification(remote_top, Some(peer)) {
                    Ok(Some(id)) => Ok(SyncAction::Task(id)),
                    Ok(None) => Ok(SyncAction::Noop),
                    Err(error) => Err(error),
                }
            },
            StateReaction::SendTop => Ok(
                SyncAction::Response(
                    NetworkData::StateBroadcastResponse(local_top.into_unverified(), None),
                ),
            ),
            StateReaction::SendSessionEndAndTop => {
                let first = match self.last_justification_unverified(remote_session) {
                    Ok(first) => first,
                    Err(error) => {
                        return Err(error);
                    },
                };
                Ok(
                    SyncAction::Response(
                        NetworkData::StateBroadcastResponse(
                            first,
                            Some(local_top.into_unverified()),
                        ),
                    ),
                )
            },
            StateReaction::SendSessionEnds => {
                let first = match self.last_justification_unverified(remote_session) {
                    Ok(first) => first,
                    Err(error) => {
                        return Err(error);
                    },
                };
                proof {
                    crate::policy::lemma_response_only_to_peers_behind(
                        self.period(),
                        local_number,
                        remote_number,
                    );
                    assert(remote_session.0 < session_of(local_number as int, self.period()));
                }
                let second = match self.last_justification_unverified(
                    SessionId(remote_session.0 + 1),
                ) {
                    Ok(second) => second,
                    Err(error) => {
                        return Err(error);
                    },
                };
                Ok(
                    SyncAction::Response(
                        NetworkData::StateBroadcastResponse(first, Some(second)),
                    ),
                )
            },
        }
    }

    /// Handle a state broadcast returning the actions we should take in
    /// response: a task where the peer told us of a justified block higher
    /// than any we knew, a response where the peer is behind, and nothing
    /// where the peer is level or ahead without news.
    pub fn handle_state(&mut self, state: State, peer: PeerId) -> (result: Result<
        SyncAction,
        Error<CS::Error, V::Error, F::Error>,
    >)
        requires
            old(self).wf(),
        ensures
            final(self).wf(),
            final(self).keeps(*old(self)),
            final(self).forest().root.number >= old(self).forest().root.number,
            result matches Ok(SyncAction::Task(id)) ==> id.number > old(
                self,
            ).forest().highest_justified.number,
            result matches Ok(SyncAction::Response(data)) ==> {
                &&& final(self).forest() == old(self).forest()
                &&& data@ is StateBroadcastResponse
            },
            result matches Err(Error::Verifier(_)) ==> final(self).forest() == old(self).forest(),
            result matches Err(Error::ChainStatus(_)) ==> final(self).forest() == old(
                self,
            ).forest(),
            result matches Err(error) ==> !(error is BelowHorizon),
            state_decided(
                old(self).checker(),
                old(self).chain_status(),
                old(self).finalizer(),
                old(self).forest(),
                final(self).forest(),
                old(self).period(),
                state@,
                peer,
                result,
            ),
    {
        let ghost checker = self.verifier;
        let ghost chain = self.chain_status;
        let submitted = state.top_justification();
        let ghost asked = submitted;
        let verdict = self.verifier.verify(submitted);
        proof {
            assert(checker.verify_gives(asked, verdict));
        }
        let remote_top = match verdict {
            Ok(verified) => verified,
            Err(error) => {
                return Err(Error::Verifier(error));
            },
        };
        let top = self.chain_status.top_finalized();
        proof {
            assert(chain.top_finalized_gives(top));
        }
        let local_top = match top {
            Ok(local_top) => local_top,
            Err(error) => {
                let result = Err(Error::ChainStatus(error));
                proof {
                    assert(verified_state_decided(
                        chain,
                        old(self).finalizer(),
                        old(self).forest(),
                        self.forest(),
                        old(self).period(),
                        remote_top@,
                        peer,
                        result,
                    ));
                }
                return result;
            },
        };
        let ghost remote = remote_top@;
        let ghost local = local_top@;
        let result = self.handle_verified_state(remote_top, local_top, peer);
        proof {
            assert(reacted_to_state(
                old(self).chain_status(),
                old(self).finalizer(),
                old(self).forest(),
                self.forest(),
                old(self).period(),
                remote,
                local,
                peer,
                result,
            ));
            assert(verified_state_decided(
                chain,
                old(self).finalizer(),
                old(self).forest(),
                self.forest(),
                old(self).period(),
                remote,
                peer,
                result,
            ));
        }
        result
    }

    /// What the chain says of each height from `from` to `to`.
    fn statuses_between(&self, from: u32, to: u32) -> (result: Result<
        Vec<FinalizationStatus>,
        Error<CS::Error, V::Error, F::Error>,
    >)
        requires
            from <= to,
        ensures
            match result {
                Ok(statuses) => statuses@.len() == to - from + 1 && statuses_given(
                    self.chain_status(),
                    from,
                    statuses@,
                ),
                Err(Error::ChainStatus(error)) => status_refused(
                    self.chain_status(),
                    from,
                    to,
                    error,
                ),
                Err(_) => false,
            },
    {
        let mut statuses: Vec<FinalizationStatus> = Vec::new();
        let mut number = from;
        loop
            invariant_except_break
                statuses@.len() == number - from,
            invariant
                from <= number <= to,
                statuses_given(self.chain_status, from, statuses@),
            ensures
                statuses@.len() == to - from + 1,
            decreases to - number,
        {
            let answer = self.chain_status.finalized_at(number);
            match answer {
                Ok(status) => {
                    proof {
                        let longer = statuses@.push(status);
                        assert forall|i: int| 0 <= i < longer.len() implies from + i <= u32::MAX
                            && self.chain_status.finalized_at_gives(
                            (from + i) as u32,
                            Ok::<FinalizationStatus, CS::Error>(#[trigger] longer[i]),
                        ) by {
                            if i < statuses@.len() {
                                assert(longer[i] == statuses@[i]);
                            }
                        }
                    }
                    statuses.push(status);
                },
                Err(error) => {
                    proof {
                        assert(self.chain_status.finalized_at_gives(
                            number,
                            Err::<FinalizationStatus, CS::Error>(error),
                        ));
                    }
                    return Err(Error::ChainStatus(error));
                },
            }
            if number == to {
                break;
            }
            number = number + 1;
        }
        Ok(statuses)
    }

    /// Handle a request for potentially substantial amounts of data.
    ///
    /// The response holds the node's state and the justifications that
    /// bridge the gap between what the requester has and the requested
    /// block, as far as the node has finalized them: none of a height that
    /// the requester's knowledge of the branch covers, none above the
    /// requested block, each height once and in rising order. A request
    /// that names a block below the horizon fails; one that asks for nothing
    /// that the node can give is passed over.
    pub fn handle_request(&mut self, request: Request) -> (result: Result<
        SyncAction,
        Error<CS::Error, V::Error, F::Error>,
    >)
        requires
            old(self).wf(),
        ensures
            final(self).wf(),
            final(self).keeps(*old(self)),
            final(self).forest() == old(self).forest(),
            request_decided(old(self).chain_status(), request@, result),
            match result {
                Ok(action) => match action@ {
                    SyncActionView::Response(data) => response_bridges(request@, data),
                    SyncActionView::Task(_) => false,
                    SyncActionView::Noop => true,
                },
                Err(error) => error is ChainStatus || error is BelowHorizon,
            },
    {
        let ghost chain = self.chain_status;
        let top = self.chain_status.top_finalized();
        let local_top = match top {
            Ok(local_top) => local_top,
            Err(error) => {
                return Err(Error::ChainStatus(error));
            },
        };
        let ghost given = local_top;
        proof {
            assert(chain.top_finalized_gives(Ok::<Justification, CS::Error>(given)));
        }
        let target = request.target_id();
        let knowledge = request.branch_knowledge();
        let (from, to) = match request_plan(&target, &knowledge, local_top.id().number) {
            RequestPlan::BelowHorizon => {
                return Err(Error::BelowHorizon);
            },
            RequestPlan::Nothing => {
                return Ok(SyncAction::Noop);
            },
            RequestPlan::Range { from, to } => (from, to),
        };
        proof {
            crate::policy::lemma_request_plan_bridges_the_gap(
                target,
                knowledge,
                local_top@.number(),
            );
        }
        let target_answer = self.chain_status.block_status(&target);
        let target_status = match target_answer {
            Ok(status) => status,
            Err(error) => {
                proof {
                    assert(range_decided(
                        chain,
                        request@,
                        given@,
                        from,
                        to,
                        Err::<SyncAction, Error<CS::Error, V::Error, F::Error>>(
                            Error::ChainStatus(error),
                        ),
                    )) by {
                        assert(chain.block_status_gives(request@.target_id, target_answer));
                    }
                }
                return Err(Error::ChainStatus(error));
            },
        };
        let knowledge_answer = self.chain_status.block_status(&knowledge.id());
        let knowledge_status = match knowledge_answer {
            Ok(status) => status,
            Err(error) => {
                let result = Err(Error::ChainStatus(error));
                proof {
                    lemma_range_decided(
                        chain,
                        request@,
                        given@,
                        from,
                        to,
                        target_answer,
                        knowledge_answer,
                        result,
                    );
                }
                return result;
            },
        };
        if !serves(target_status, knowledge_status) {
            let result = Ok(SyncAction::Noop);
            proof {
                lemma_range_decided(
                    chain,
                    request@,
                    given@,
                    from,
                    to,
                    target_answer,
                    knowledge_answer,
                    result,
                );
            }
            return result;
        }
        let statuses = match self.statuses_between(from, to) {
            Ok(statuses) => statuses,
            Err(error) => {
                let result = Err(error);
                proof {
                    assert(range_served(chain, given@, from, to, result));
                    lemma_range_decided(
                        chain,
                        request@,
                        given@,
                        from,
                        to,
                        target_answer,
                        knowledge_answer,
                        result,
                    );
                }
                return result;
            },
        };
        proof {
            crate::policy::lemma_select_within_range(from as int, statuses@);
        }
        let ghost collected = statuses@;
        let response = request_response(local_top, from, statuses);
        proof {
            assert(answers(request@, given@.number(), collected, response@));
        }
        let result = Ok(SyncAction::Response(response));
        proof {
            assert(range_served(chain, given@, from, to, result)) by {
                assert(statuses_given(chain, from, collected));
            }
            lemma_range_decided(
                chain,
                request@,
                given@,
                from,
                to,
                target_answer,
                knowledge_answer,
                result,
            );
        }
        result
    }

    /// Forgets everything but `top`, the top finalized block.
    pub fn reset_forest(&mut self, top: BlockId)
        requires
            old(self).wf(),
        ensures
            final(self).wf(),
            final(self).keeps(*old(self)),
            final(self).forest() == ForestView::fresh(top),
    {
        self.forest = Forest::new(top);
    }

    /// Rebuilds the forest from the chain: afterwards it knows the top
    /// finalized block of the chain and nothing else.
    pub fn refresh_forest(&mut self) -> (result: Result<(), Error<CS::Error, V::Error, F::Error>>)
        requires
            old(self).wf(),
        ensures
            final(self).wf(),
            final(self).keeps(*old(self)),
            match result {
                Ok(_) => final(self).forest() == ForestView::fresh(final(self).forest().root),
                Err(error) => error is ChainStatus && final(self).forest() == old(self).forest(),
            },
            forest_rebuilt(
                old(self).chain_status(),
                old(self).forest(),
                final(self).forest(),
                error_of(result),
            ),
    {
        let answer = self.chain_status.top_finalized();
        let top = match answer {
            Ok(top) => top,
            Err(error) => {
                return Err(Error::ChainStatus(error));
            },
        };
        proof {
            assert(self.chain_status.top_finalized_gives(Ok::<Justification, CS::Error>(top)));
            assert(top_known(self.chain_status, top@));
        }
        self.reset_forest(top.id());
        Ok(())
    }
}

} // verus!
