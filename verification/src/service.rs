//! The service that keeps the node synchronised with its peers.
//!
//! The service owns the handler, the queue of requests to make and the ticker
//! of broadcasts. It does no waiting and no sending of its own: the caller
//! tells it what happened and when, and carries out what it hands back. One
//! call handles one event.

use vstd::prelude::*;
use crate::block::{BlockId, Header, PeerId};
use crate::data::{
    views_of, BranchKnowledge, NetworkData, NetworkDataView, Request, RequestView, State,
};
use crate::forest::Interest;
use crate::forest_model::{ForestError, ForestView, InterestView};
use crate::handler::{
    error_of, forest_planted, forest_rebuilt, import_handled, justification_decided,
    request_decided, state_decided, top_known, top_stays, verdicts_agree, ChainStatus, Error,
    Finalizer, Handler, SyncAction, SyncActionView, Verifier,
};
use crate::justification::{Justification, JustificationView};
use crate::session::SessionPeriod;
use crate::task_queue::{
    in_time_order, instant_after, lemma_scheduled, scheduled, ScheduledTask, TaskQueue,
};
use crate::ticker::{Tick, Ticker, TickerView};

verus! {

/// The shortest time between two broadcasts, in milliseconds.
pub const BROADCAST_COOLDOWN: u64 = 200;

/// The longest time between two broadcasts, in milliseconds.
pub const BROADCAST_PERIOD: u64 = 1000;

/// The time between two checks for a stall of finalization, in milliseconds.
pub const FINALIZATION_STALL_CHECK_PERIOD: u64 = 30000;

/// The delay of a request that is made at once.
pub const REQUEST_DELAY: u64 = 0;

/// The delay before a block near the top is requested again, in milliseconds.
pub const DELAYED_REQUEST_DELAY: u64 = 500;

/// The delay before any other block is requested again, in milliseconds.
pub const BACKUP_REQUEST_DELAY: u64 = 5000;

/// The contents of an [`Outbound`].
pub enum OutboundView {
    Broadcast(NetworkDataView),
    SendTo(NetworkDataView, PeerId),
    SendToRandom(NetworkDataView, Set<PeerId>),
}

/// What the caller is to send for the service.
#[derive(Debug, PartialEq, Eq)]
pub enum Outbound {
    /// Send the data to every peer.
    Broadcast(NetworkData),
    /// Send the data to the one peer.
    SendTo(NetworkData, PeerId),
    /// Send the data to some of the peers listed, chosen at random.
    SendToRandom(NetworkData, Vec<PeerId>),
}

impl View for Outbound {
    type V = OutboundView;

    open spec fn view(&self) -> OutboundView {
        match self {
            Outbound::Broadcast(data) => OutboundView::Broadcast(data@),
            Outbound::SendTo(data, peer) => OutboundView::SendTo(data@, *peer),
            Outbound::SendToRandom(data, peers) => OutboundView::SendToRandom(
                data@,
                peers@.to_set(),
            ),
        }
    }
}

impl OutboundView {
    /// Whether the message goes to `peer` and nobody else.
    pub open spec fn is_sent_to(self, peer: PeerId) -> bool {
        match self {
            OutboundView::SendTo(_, recipient) => recipient == peer,
            _ => false,
        }
    }

    /// Whether the message is a request for `block_id` that states
    /// `branch_knowledge` and goes to some of `peers`.
    pub open spec fn is_request_for(
        self,
        block_id: BlockId,
        branch_knowledge: BranchKnowledge,
        peers: Set<PeerId>,
    ) -> bool {
        match self {
            OutboundView::SendToRandom(NetworkDataView::Request(request), recipients) => {
                &&& recipients == peers
                &&& request.target_id == block_id
                &&& request.branch_knowledge == branch_knowledge
            },
            _ => false,
        }
    }
}

/// The contents of an outbound message that may be absent.
pub open spec fn outbound_view(outbound: Option<Outbound>) -> Option<OutboundView> {
    match outbound {
        Some(outbound) => Some(outbound@),
        None => None,
    }
}

/// What the node's chain reports.
#[derive(Debug, PartialEq, Eq)]
pub enum ChainStatusNotification {
    /// A block has been imported.
    BlockImported(Header),
    /// A block has been finalized.
    BlockFinalized(Header),
}

/// What can happen to the service.
#[derive(Debug, PartialEq, Eq)]
pub enum Event {
    /// A peer sent data.
    Network(NetworkData, PeerId),
    /// The time of the earliest task has come.
    Task,
    /// The time of the next broadcast has come.
    BroadcastTick,
    /// The chain reported something.
    Chain(ChainStatusNotification),
    /// The user submitted a justification.
    JustificationFromUser(Justification),
    /// The user submitted a justification through the additional channel.
    AdditionalJustificationFromUser(Justification),
    /// The time to check for a stall of finalization has come.
    StallCheck,
    /// The user asked for a block.
    BlockRequest(BlockId),
}

/// Finds out whether finalization has stalled: whether the top finalized
/// block is where it was at the last check.
#[derive(Clone, Copy, Debug, PartialEq, Eq, Structural)]
pub struct StallDetector {
    pub last_top_number: u32,
}

impl StallDetector {
    /// A detector that takes the block at height zero for the last top seen.
    pub fn new() -> (detector: Self)
        ensures
            detector.last_top_number == 0,
    {
        StallDetector { last_top_number: 0 }
    }

    /// Checks the height of the top finalized block against the height at the
    /// last check. Where they agree, finalization has stalled; where they
    /// differ, the new height is kept for the next check.
    pub fn check(&mut self, top_number: u32) -> (stalled: bool)
        ensures
            stalled == (top_number == old(self).last_top_number),
            final(self).last_top_number == top_number,
    {
        if top_number == self.last_top_number {
            true
        } else {
            self.last_top_number = top_number;
            false
        }
    }
}

/// The queue after the tasks that follow a batch of justifications were
/// scheduled at `now`: each block that extended what was known gets a backup
/// request, but the last, which is requested at once, provided that the
/// whole batch was handled.
pub open spec fn spec_follow_ups(
    tasks: Seq<ScheduledTask>,
    extended: Seq<BlockId>,
    now: u64,
    complete: bool,
) -> Seq<ScheduledTask>
    decreases extended.len(),
{
    if extended.len() == 0 {
        tasks
    } else {
        let earlier = spec_backups(tasks, extended.drop_last(), now);
        if complete {
            scheduled(earlier, extended.last(), instant_after(now, REQUEST_DELAY))
        } else {
            earlier
        }
    }
}

/// The queue after a backup request was scheduled at `now` for each of `blocks`.
pub open spec fn spec_backups(tasks: Seq<ScheduledTask>, blocks: Seq<BlockId>, now: u64) -> Seq<
    ScheduledTask,
>
    decreases blocks.len(),
{
    if blocks.len() == 0 {
        tasks
    } else {
        scheduled(
            spec_backups(tasks, blocks.drop_last(), now),
            blocks.last(),
            instant_after(now, BACKUP_REQUEST_DELAY),
        )
    }
}

/// Backup requests keep the queue in time order and add one entry per block.
pub proof fn lemma_backups(tasks: Seq<ScheduledTask>, blocks: Seq<BlockId>, now: u64)
    requires
        in_time_order(tasks),
    ensures
        in_time_order(spec_backups(tasks, blocks, now)),
        spec_backups(tasks, blocks, now).len() == tasks.len() + blocks.len(),
    decreases blocks.len(),
{
    if blocks.len() > 0 {
        lemma_backups(tasks, blocks.drop_last(), now);
        crate::task_queue::lemma_scheduled(
            spec_backups(tasks, blocks.drop_last(), now),
            blocks.last(),
            instant_after(now, BACKUP_REQUEST_DELAY),
        );
    }
}

/// Of a batch that was handled whole, exactly one block is requested at
/// once: the follow-ups add one entry per block, and a batch that was cut
/// short one entry less.
pub proof fn lemma_follow_ups(
    tasks: Seq<ScheduledTask>,
    extended: Seq<BlockId>,
    now: u64,
    complete: bool,
)
    requires
        in_time_order(tasks),
    ensures
        in_time_order(spec_follow_ups(tasks, extended, now, complete)),
        spec_follow_ups(tasks, extended, now, complete).len() == tasks.len() + if extended.len()
            == 0 {
            0int
        } else if complete {
            extended.len() as int
        } else {
            extended.len() - 1
        },
{
    if extended.len() > 0 {
        lemma_backups(tasks, extended.drop_last(), now);
        crate::task_queue::lemma_scheduled(
            spec_backups(tasks, extended.drop_last(), now),
            extended.last(),
            instant_after(now, REQUEST_DELAY),
        );
    }
}

/// What performing `action` at `now` does to the queue, and what it sends to `peer`.
pub open spec fn spec_perform(
    tasks: Seq<ScheduledTask>,
    action: SyncActionView,
    now: u64,
    peer: PeerId,
) -> (Seq<ScheduledTask>, Option<OutboundView>) {
    match action {
        SyncActionView::Response(data) => (tasks, Some(OutboundView::SendTo(data, peer))),
        SyncActionView::Task(id) => (scheduled(tasks, id, instant_after(now, REQUEST_DELAY)), None),
        SyncActionView::Noop => (tasks, None),
    }
}

/// The delay after which a block of the given interest is requested again.
pub open spec fn spec_retry_delay(interest: InterestView) -> Option<u64> {
    match interest {
        InterestView::Uninterested => None,
        InterestView::Required { .. } => Some(BACKUP_REQUEST_DELAY),
        InterestView::TopRequired { .. } => Some(DELAYED_REQUEST_DELAY),
        InterestView::HighestJustified { .. } => Some(DELAYED_REQUEST_DELAY),
    }
}

/// The cadence of requests: a block that is merely required is requested
/// again after five seconds, the top required and the highest justified
/// block after half a second, and a block of no interest not at all.
pub proof fn lemma_retry_cadence(interest: InterestView)
    ensures
        interest is Uninterested <==> spec_retry_delay(interest) is None,
        interest is Required ==> spec_retry_delay(interest) == Some(5000u64),
        interest is TopRequired || interest is HighestJustified ==> spec_retry_delay(interest)
            == Some(500u64),
{
}

/// The state of a service, as contracts speak of it.
pub struct ServiceView {
    /// The tasks that wait, in the order in which they are due.
    pub tasks: Seq<ScheduledTask>,
    /// The ticker of broadcasts.
    pub ticker: TickerView,
    /// The forest of the handler.
    pub forest: ForestView,
    /// The height of the top finalized block at the last check for a stall.
    pub last_top_number: u32,
}

impl ServiceView {
    /// The tasks stand in time order, the forest is well-formed and the
    /// ticker sound.
    pub open spec fn wf(self) -> bool {
        &&& in_time_order(self.tasks)
        &&& self.forest.wf()
        &&& self.ticker.wf()
    }

    /// The service with a request for `block_id` scheduled `delay`
    /// milliseconds after `now`.
    pub open spec fn with_request(self, block_id: BlockId, now: u64, delay: u64) -> ServiceView {
        ServiceView { tasks: scheduled(self.tasks, block_id, instant_after(now, delay)), ..self }
    }

    /// The service without its earliest task.
    pub open spec fn without_first_task(self) -> ServiceView {
        ServiceView { tasks: self.tasks.drop_first(), ..self }
    }

    /// Whether a task is due at `now`.
    pub open spec fn task_due(self, now: u64) -> bool {
        self.tasks.len() > 0 && self.tasks[0].scheduled_time <= now
    }
}

/// The contents of a list of outbound messages.
pub open spec fn outbound_views(outbound: Seq<Outbound>) -> Seq<OutboundView> {
    Seq::new(outbound.len(), |i: int| outbound[i]@)
}

/// The contents of what a handling hands back: the message, if one goes
/// out, or the failure.
pub open spec fn sent<E>(result: Result<Option<Outbound>, E>) -> Result<Option<OutboundView>, E> {
    match result {
        Ok(Some(message)) => Ok(Some(message@)),
        Ok(None) => Ok(None),
        Err(error) => Err(error),
    }
}

/// The message that a handling sends, if it sends one.
pub open spec fn messages_of<E>(result: Result<Option<OutboundView>, E>) -> Seq<OutboundView> {
    match result {
        Ok(Some(message)) => seq![message],
        _ => Seq::empty(),
    }
}

/// The failure of a handling, if it failed.
pub open spec fn failures_of<T, E>(result: Result<T, E>) -> Seq<E> {
    match result {
        Ok(_) => Seq::empty(),
        Err(error) => seq![error],
    }
}

/// No failure, or the one.
pub open spec fn optional_failure<E>(failure: Option<E>) -> Seq<E> {
    match failure {
        Some(error) => seq![error],
        None => Seq::empty(),
    }
}

/// What is handed back on the handler's decision `decision` on what `peer`
/// sent: the response for `peer`, if the decision is one, nothing for any
/// other action, and the failure of the handler as it is.
pub open spec fn outcome_of<E>(decision: Result<SyncAction, E>, peer: PeerId) -> Result<
    Option<OutboundView>,
    E,
> {
    match decision {
        Ok(action) => Ok(
            match action@ {
                SyncActionView::Response(data) => Some(OutboundView::SendTo(data, peer)),
                _ => None,
            },
        ),
        Err(error) => Err(error),
    }
}

/// The queue after the handler's decision `decision` was carried out at
/// `now`: a task is scheduled at once, and nothing else changes the queue.
pub open spec fn tasks_after<E>(
    tasks: Seq<ScheduledTask>,
    decision: Result<SyncAction, E>,
    now: u64,
) -> Seq<ScheduledTask> {
    match decision {
        Ok(action) => match action@ {
            SyncActionView::Task(id) => scheduled(tasks, id, instant_after(now, REQUEST_DELAY)),
            _ => tasks,
        },
        Err(_) => tasks,
    }
}

/// Whether `result` is the node's state as the chain gives it, made into a
/// message by `wrap`: the message holds the top justification that the chain
/// gave, and the failure of the chain is handed on where it gave none.
pub open spec fn state_broadcast<CS: ChainStatus, VE, FE>(
    chain: CS,
    result: Result<OutboundView, Error<CS::Error, VE, FE>>,
) -> bool {
    match result {
        Ok(OutboundView::Broadcast(NetworkDataView::StateBroadcast(top))) => top_known(chain, top),
        Ok(_) => false,
        Err(Error::ChainStatus(error)) => chain.top_finalized_gives(
            Err::<Justification, CS::Error>(error),
        ),
        Err(_) => false,
    }
}

/// Whether `result` is the request for `block_id` with the node's state as
/// the chain gives it: the request names the block, states the knowledge of
/// its branch, goes to some of `peers` and holds the top justification that
/// the chain gave. The failure of the chain is handed on where it gave none.
pub open spec fn request_sent<CS: ChainStatus, VE, FE>(
    chain: CS,
    block_id: BlockId,
    branch_knowledge: BranchKnowledge,
    peers: Set<PeerId>,
    result: Result<OutboundView, Error<CS::Error, VE, FE>>,
) -> bool {
    match result {
        Ok(OutboundView::SendToRandom(NetworkDataView::Request(request), recipients)) => {
            &&& recipients == peers
            &&& request.target_id == block_id
            &&& request.branch_knowledge == branch_knowledge
            &&& top_known(chain, request.state)
        },
        Ok(_) => false,
        Err(Error::ChainStatus(error)) => chain.top_finalized_gives(
            Err::<Justification, CS::Error>(error),
        ),
        Err(_) => false,
    }
}

/// What is handed back where a message is due: the message or the failure.
pub open spec fn due<E>(result: Result<Option<OutboundView>, E>) -> Option<
    Result<OutboundView, E>,
> {
    match result {
        Ok(Some(message)) => Some(Ok(message)),
        Ok(None) => None,
        Err(error) => Some(Err(error)),
    }
}

/// What holds after the state `state` that `peer` announced was handled at
/// `now`. The handler decides the state. A response goes to `peer`; a task
/// is scheduled at `now`; a failure is handed back; and nothing else
/// changes but the forest, as the decision says.
pub open spec fn state_handled<CS: ChainStatus, V: Verifier, F: Finalizer>(
    checker: V,
    chain: CS,
    finalizer: F,
    period: int,
    before: ServiceView,
    after: ServiceView,
    now: u64,
    state: JustificationView,
    peer: PeerId,
    result: Result<Option<OutboundView>, Error<CS::Error, V::Error, F::Error>>,
) -> bool {
    exists|decision: Result<SyncAction, Error<CS::Error, V::Error, F::Error>>|
        {
            &&& #[trigger] state_decided(
                checker,
                chain,
                finalizer,
                before.forest,
                after.forest,
                period,
                state,
                peer,
                decision,
            )
            &&& after == (ServiceView {
                tasks: tasks_after(before.tasks, decision, now),
                forest: after.forest,
                ..before
            })
            &&& result == outcome_of(decision, peer)
        }
}

/// A state that a peer announces twice is followed by one request at most:
/// while the verifier gives one verdict on one justification and the top of
/// the chain stays where it is, handling a state that was handled before
/// schedules nothing.
pub proof fn lemma_state_handled_twice_requests_once<CS: ChainStatus, V: Verifier, F: Finalizer>(
    checker: V,
    chain: CS,
    finalizer: F,
    period: int,
    height: u32,
    before: ServiceView,
    between: ServiceView,
    after: ServiceView,
    now: u64,
    later: u64,
    state: JustificationView,
    peer: PeerId,
    first: Result<Option<OutboundView>, Error<CS::Error, V::Error, F::Error>>,
    second: Result<Option<OutboundView>, Error<CS::Error, V::Error, F::Error>>,
)
    requires
        before.forest.wf(),
        period > 0,
        verdicts_agree(checker),
        top_stays(chain, height),
        state_handled(checker, chain, finalizer, period, before, between, now, state, peer, first),
        state_handled(
            checker,
            chain,
            finalizer,
            period,
            between,
            after,
            later,
            state,
            peer,
            second,
        ),
    ensures
        after.tasks == between.tasks,
{
    let decision = choose|decision: Result<SyncAction, Error<CS::Error, V::Error, F::Error>>|
        {
            &&& #[trigger] state_decided(
                checker,
                chain,
                finalizer,
                before.forest,
                between.forest,
                period,
                state,
                peer,
                decision,
            )
            &&& between == (ServiceView {
                tasks: tasks_after(before.tasks, decision, now),
                forest: between.forest,
                ..before
            })
            &&& first == outcome_of(decision, peer)
        };
    let again = choose|again: Result<SyncAction, Error<CS::Error, V::Error, F::Error>>|
        {
            &&& #[trigger] state_decided(
                checker,
                chain,
                finalizer,
                between.forest,
                after.forest,
                period,
                state,
                peer,
                again,
            )
            &&& after == (ServiceView {
                tasks: tasks_after(between.tasks, again, later),
                forest: after.forest,
                ..between
            })
            &&& second == outcome_of(again, peer)
        };
    crate::handler::lemma_state_decided_twice_asks_once(
        checker,
        chain,
        finalizer,
        before.forest,
        between.forest,
        after.forest,
        period,
        height,
        state,
        peer,
        decision,
        again,
    );
}

/// What is handed back for the request `request` of `peer`: the handler
/// decides the request, its response goes to `peer`, and its failure is
/// handed back.
pub open spec fn request_handled<CS: ChainStatus, VE, FE>(
    chain: CS,
    request: RequestView,
    peer: PeerId,
    result: Result<Option<OutboundView>, Error<CS::Error, VE, FE>>,
) -> bool {
    exists|decision: Result<SyncAction, Error<CS::Error, VE, FE>>|
        #[trigger] request_decided(chain, request, decision) && result == outcome_of(
            decision,
            peer,
        )
}

/// The blocks that were news among the outcomes of a batch, in order.
pub open spec fn news_of<E>(outcomes: Seq<Result<Option<BlockId>, E>>) -> Seq<BlockId>
    decreases outcomes.len(),
{
    if outcomes.len() == 0 {
        Seq::empty()
    } else {
        match outcomes.last() {
            Ok(Some(id)) => news_of(outcomes.drop_last()).push(id),
            _ => news_of(outcomes.drop_last()),
        }
    }
}

/// The failure that cut a batch short, if one did.
pub open spec fn batch_failure<E>(outcomes: Seq<Result<Option<BlockId>, E>>) -> Option<E> {
    if outcomes.len() == 0 {
        None
    } else {
        error_of(outcomes.last())
    }
}

/// Whether `outcomes` are the handler's decisions on the justifications of
/// `batch`, one after another from the first, each with `peer`, and
/// `forests` the forests in between, beginning with `start`. The handling
/// goes on as long as it succeeds: every outcome but the last is a success,
/// and justifications are left only behind a failure.
pub open spec fn batch_steps<CE, V: Verifier, F: Finalizer>(
    checker: V,
    finalizer: F,
    period: int,
    start: ForestView,
    batch: Seq<JustificationView>,
    peer: Option<PeerId>,
    forests: Seq<ForestView>,
    outcomes: Seq<Result<Option<BlockId>, Error<CE, V::Error, F::Error>>>,
) -> bool {
    &&& outcomes.len() <= batch.len()
    &&& forests.len() == outcomes.len() + 1
    &&& forests[0] == start
    &&& forall|i: int|
        0 <= i < outcomes.len() ==> justification_decided(
            checker,
            finalizer,
            forests[i],
            forests[i + 1],
            period,
            batch[i],
            peer,
            #[trigger] outcomes[i],
        )
    &&& forall|i: int| 0 <= i < outcomes.len() - 1 ==> (#[trigger] outcomes[i]) is Ok
    &&& outcomes.len() < batch.len() ==> outcomes.len() > 0 && outcomes.last() is Err
}

/// What holds after the batch `batch` of justifications was handled at
/// `now` for `peer`. The justifications are handed to the handler in order,
/// up to the first that fails. Each block that was news gets a backup
/// request, but the last, which is requested at once if the whole batch was
/// handled. The failure that cut the batch short is handed back.
pub open spec fn batch_handled<CE, V: Verifier, F: Finalizer>(
    checker: V,
    finalizer: F,
    period: int,
    before: ServiceView,
    after: ServiceView,
    now: u64,
    batch: Seq<JustificationView>,
    peer: Option<PeerId>,
    failure: Option<Error<CE, V::Error, F::Error>>,
) -> bool {
    exists|
        forests: Seq<ForestView>,
        outcomes: Seq<Result<Option<BlockId>, Error<CE, V::Error, F::Error>>>,
    |
        {
            &&& #[trigger] batch_steps(
                checker,
                finalizer,
                period,
                before.forest,
                batch,
                peer,
                forests,
                outcomes,
            )
            &&& failure == batch_failure(outcomes)
            &&& after == (ServiceView {
                forest: forests.last(),
                tasks: spec_follow_ups(before.tasks, news_of(outcomes), now, failure is None),
                ..before
            })
        }
}

/// The justifications of a response to a state: the first, and the second
/// if there is one.
pub open spec fn pair(first: JustificationView, second: Option<JustificationView>) -> Seq<
    JustificationView,
> {
    match second {
        Some(second) => seq![first, second],
        None => seq![first],
    }
}

/// What holds after the task for `block_id` was handled at `now`. A block
/// of no interest is dropped. Any other is requested from the peers that
/// know most about it, with the knowledge of its branch and the node's
/// state as the chain gives it, and scheduled again after the delay that
/// its interest calls for, also where the chain gave no state.
pub open spec fn task_handled<CS: ChainStatus, VE, FE>(
    chain: CS,
    before: ServiceView,
    after: ServiceView,
    now: u64,
    block_id: BlockId,
    result: Result<Option<OutboundView>, Error<CS::Error, VE, FE>>,
) -> bool {
    match before.forest.state(block_id) {
        InterestView::Uninterested => after == before && result matches Ok(None),
        InterestView::Required { know_most, branch_knowledge } => {
            &&& after == before.with_request(block_id, now, BACKUP_REQUEST_DELAY)
            &&& due(result) matches Some(request)
            &&& request_sent(chain, block_id, branch_knowledge, know_most, request)
        },
        InterestView::TopRequired { know_most, branch_knowledge } => {
            &&& after == before.with_request(block_id, now, DELAYED_REQUEST_DELAY)
            &&& due(result) matches Some(request)
            &&& request_sent(chain, block_id, branch_knowledge, know_most, request)
        },
        InterestView::HighestJustified { know_most, branch_knowledge } => {
            &&& after == before.with_request(block_id, now, DELAYED_REQUEST_DELAY)
            &&& due(result) matches Some(request)
            &&& request_sent(chain, block_id, branch_knowledge, know_most, request)
        },
    }
}

/// What holds after the time of a task came at `now`: the earliest task, if
/// it is due, leaves the queue and is handled; otherwise nothing happens.
pub open spec fn due_task_handled<CS: ChainStatus, VE, FE>(
    chain: CS,
    before: ServiceView,
    after: ServiceView,
    now: u64,
    result: Result<Option<OutboundView>, Error<CS::Error, VE, FE>>,
) -> bool {
    if before.task_due(now) {
        task_handled(chain, before.without_first_task(), after, now, before.tasks[0].task, result)
    } else {
        after == before && result matches Ok(None)
    }
}

/// Whether `result` is what a broadcast gives that is due or not: where it
/// is due, the node's state as the chain gives it or the failure of the
/// chain; where it is not, nothing.
pub open spec fn broadcast_if<CS: ChainStatus, VE, FE>(
    chain: CS,
    fired: bool,
    result: Result<Option<OutboundView>, Error<CS::Error, VE, FE>>,
) -> bool {
    if fired {
        due(result) matches Some(message) && state_broadcast(chain, message)
    } else {
        result matches Ok(None)
    }
}

/// What holds after the time of a broadcast came at `now`: the ticker fires
/// if its timeout has run out, and exactly then the state is broadcast.
pub open spec fn broadcast_tick_handled<CS: ChainStatus, VE, FE>(
    chain: CS,
    before: ServiceView,
    after: ServiceView,
    now: u64,
    result: Result<Option<OutboundView>, Error<CS::Error, VE, FE>>,
) -> bool {
    &&& after == (ServiceView { ticker: before.ticker.after_wait_and_tick(now), ..before })
    &&& broadcast_if(chain, before.ticker.due(now), result)
}

/// What holds after a report of the chain was handled at `now`. An imported
/// block is handed to the handler, nothing goes out, and the failure of the
/// handler is handed back. A finalized block asks the ticker for a
/// broadcast, and the state is broadcast exactly when the cooldown has
/// passed.
pub open spec fn chain_event_handled<CS: ChainStatus, VE, F: Finalizer>(
    chain: CS,
    finalizer: F,
    period: int,
    before: ServiceView,
    after: ServiceView,
    now: u64,
    event: ChainStatusNotification,
    result: Result<Option<OutboundView>, Error<CS::Error, VE, F::Error>>,
) -> bool {
    match event {
        ChainStatusNotification::BlockImported(header) => {
            &&& after == (ServiceView { forest: after.forest, ..before })
            &&& import_handled(
                finalizer,
                before.forest,
                after.forest,
                period,
                header@,
                error_of(result),
            )
            &&& result matches Ok(message) ==> message is None
        },
        ChainStatusNotification::BlockFinalized(_) => {
            &&& after == (ServiceView { ticker: before.ticker.after_try_tick(now), ..before })
            &&& broadcast_if(chain, before.ticker.cooled_down(now), result)
        },
    }
}

/// What holds after a check for a stall, where the top finalized block has
/// the height `top_number`: the check finds a stall exactly when that is the
/// height of the check before, and keeps the height for the next check.
pub open spec fn stall_checked(
    before: ServiceView,
    after: ServiceView,
    top_number: u32,
    stalled: bool,
) -> bool {
    &&& stalled == (top_number == before.last_top_number)
    &&& after == (ServiceView { forest: after.forest, last_top_number: top_number, ..before })
}

/// What holds after a check for a stall at the height `top_number` with the
/// chain `chain`. On a stall the forest is rebuilt from the chain, and the
/// failure of the rebuilding is handed back. Otherwise the forest stays and
/// nothing fails.
pub open spec fn stall_handled<CS: ChainStatus, VE, FE>(
    chain: CS,
    before: ServiceView,
    after: ServiceView,
    top_number: u32,
    stalled: bool,
    failure: Option<Error<CS::Error, VE, FE>>,
) -> bool {
    &&& stall_checked(before, after, top_number, stalled)
    &&& if stalled {
        forest_rebuilt(chain, before.forest, after.forest, failure)
    } else {
        after.forest == before.forest && failure is None
    }
}

/// What holds after a check for a stall at a node with the chain `chain`.
/// The chain is asked for its top finalized block. Where it gives none,
/// nothing happens, no stall is found and its failure is handed back.
/// Otherwise the stall is checked at the height of the top that it gave.
pub open spec fn stall_check_decided<CS: ChainStatus, VE, FE>(
    chain: CS,
    before: ServiceView,
    after: ServiceView,
    stalled: bool,
    failure: Option<Error<CS::Error, VE, FE>>,
) -> bool {
    (exists|error: CS::Error|
        {
            &&& #[trigger] chain.top_finalized_gives(Err::<Justification, CS::Error>(error))
            &&& failure == Some(Error::<CS::Error, VE, FE>::ChainStatus(error))
            &&& !stalled
            &&& after == before
        }) || exists|top: JustificationView|
        {
            &&& #[trigger] top_known(chain, top)
            &&& stall_handled(chain, before, after, top.number(), stalled, failure)
        }
}

/// The service after the user asked for `block_id` at `now`: the block is
/// required, and requested at once if it was not required before.
pub open spec fn block_requested(before: ServiceView, block_id: BlockId, now: u64) -> ServiceView {
    let (forest, newly) = before.forest.update_block_identifier(block_id, None, true);
    ServiceView {
        forest,
        tasks: if newly == Ok::<bool, ForestError>(true) {
            scheduled(before.tasks, block_id, instant_after(now, REQUEST_DELAY))
        } else {
            before.tasks
        },
        ..before
    }
}

/// The failure of the user's request for `block_id`: the refusal of the
/// forest, if it refuses the block.
pub open spec fn block_request_failure<CE, VE, FE>(
    before: ServiceView,
    block_id: BlockId,
) -> Option<Error<CE, VE, FE>> {
    match before.forest.update_block_identifier(block_id, None, true).1 {
        Ok(_) => None,
        Err(refusal) => Some(Error::Forest(refusal)),
    }
}

/// What holds after a batch was handled where nothing goes out: the batch
/// is handled as `batch_handled` says, and its failure is all that is handed
/// back.
pub open spec fn batch_outcome<CE, V: Verifier, F: Finalizer>(
    checker: V,
    finalizer: F,
    period: int,
    before: ServiceView,
    after: ServiceView,
    now: u64,
    batch: Seq<JustificationView>,
    peer: Option<PeerId>,
    outbound: Seq<OutboundView>,
    failures: Seq<Error<CE, V::Error, F::Error>>,
) -> bool {
    &&& outbound.len() == 0
    &&& exists|failure: Option<Error<CE, V::Error, F::Error>>|
        {
            &&& #[trigger] batch_handled(
                checker,
                finalizer,
                period,
                before,
                after,
                now,
                batch,
                peer,
                failure,
            )
            &&& failures == optional_failure(failure)
        }
}

/// What holds after the data `data` that `peer` sent was handled at `now`.
/// A state is handled as a state. The justifications of a response are
/// handled as a batch for `peer`, in the order in which they stand. A
/// request is answered, and then the state in it is handled, also where the
/// request failed. What goes out and what failed is handed back in that
/// order.
pub open spec fn network_data_handled<CS: ChainStatus, V: Verifier, F: Finalizer>(
    checker: V,
    chain: CS,
    finalizer: F,
    period: int,
    before: ServiceView,
    after: ServiceView,
    now: u64,
    data: NetworkDataView,
    peer: PeerId,
    outbound: Seq<OutboundView>,
    failures: Seq<Error<CS::Error, V::Error, F::Error>>,
) -> bool {
    match data {
        NetworkDataView::StateBroadcast(state) => exists|
            result: Result<Option<OutboundView>, Error<CS::Error, V::Error, F::Error>>,
        |
            {
                &&& #[trigger] state_handled(
                    checker,
                    chain,
                    finalizer,
                    period,
                    before,
                    after,
                    now,
                    state,
                    peer,
                    result,
                )
                &&& outbound == messages_of(result)
                &&& failures == failures_of(result)
            },
        NetworkDataView::StateBroadcastResponse(first, second) => batch_outcome(
            checker,
            finalizer,
            period,
            before,
            after,
            now,
            pair(first, second),
            Some(peer),
            outbound,
            failures,
        ),
        NetworkDataView::Request(request) => exists|
            answer: Result<Option<OutboundView>, Error<CS::Error, V::Error, F::Error>>,
            reaction: Result<Option<OutboundView>, Error<CS::Error, V::Error, F::Error>>,
        |
            {
                &&& #[trigger] request_handled(chain, request, peer, answer)
                &&& #[trigger] state_handled(
                    checker,
                    chain,
                    finalizer,
                    period,
                    before,
                    after,
                    now,
                    request.state,
                    peer,
                    reaction,
                )
                &&& outbound == messages_of(answer) + messages_of(reaction)
                &&& failures == failures_of(answer) + failures_of(reaction)
            },
        NetworkDataView::RequestResponse(_, justifications) => batch_outcome(
            checker,
            finalizer,
            period,
            before,
            after,
            now,
            justifications,
            Some(peer),
            outbound,
            failures,
        ),
    }
}

/// What holds after `event` was handled at `now`: each event is handled as
/// its kind says, and what goes out and what failed is handed back.
pub open spec fn event_handled<CS: ChainStatus, V: Verifier, F: Finalizer>(
    checker: V,
    chain: CS,
    finalizer: F,
    period: int,
    before: ServiceView,
    after: ServiceView,
    now: u64,
    event: Event,
    outbound: Seq<OutboundView>,
    failures: Seq<Error<CS::Error, V::Error, F::Error>>,
) -> bool {
    match event {
        Event::Network(data, peer) => network_data_handled(
            checker,
            chain,
            finalizer,
            period,
            before,
            after,
            now,
            data@,
            peer,
            outbound,
            failures,
        ),
        Event::Task => exists|
            result: Result<Option<OutboundView>, Error<CS::Error, V::Error, F::Error>>,
        |
            {
                &&& #[trigger] due_task_handled(chain, before, after, now, result)
                &&& outbound == messages_of(result)
                &&& failures == failures_of(result)
            },
        Event::BroadcastTick => exists|
            result: Result<Option<OutboundView>, Error<CS::Error, V::Error, F::Error>>,
        |
            {
                &&& #[trigger] broadcast_tick_handled(chain, before, after, now, result)
                &&& outbound == messages_of(result)
                &&& failures == failures_of(result)
            },
        Event::Chain(notification) => exists|
            result: Result<Option<OutboundView>, Error<CS::Error, V::Error, F::Error>>,
        |
            {
                &&& #[trigger] chain_event_handled(
                    chain,
                    finalizer,
                    period,
                    before,
                    after,
                    now,
                    notification,
                    result,
                )
                &&& outbound == messages_of(result)
                &&& failures == failures_of(result)
            },
        Event::JustificationFromUser(justification) => batch_outcome(
            checker,
            finalizer,
            period,
            before,
            after,
            now,
            seq![justification@],
            None,
            outbound,
            failures,
        ),
        Event::AdditionalJustificationFromUser(justification) => batch_outcome(
            checker,
            finalizer,
            period,
            before,
            after,
            now,
            seq![justification@],
            None,
            outbound,
            failures,
        ),
        Event::StallCheck => {
            &&& outbound.len() == 0
            &&& exists|stalled: bool, failure: Option<Error<CS::Error, V::Error, F::Error>>|
                {
                    &&& #[trigger] stall_check_decided(chain, before, after, stalled, failure)
                    &&& failures == optional_failure(failure)
                }
        },
        Event::BlockRequest(block_id) => {
            &&& outbound.len() == 0
            &&& after == block_requested(before, block_id, now)
            &&& failures == optional_failure(
                block_request_failure::<CS::Error, V::Error, F::Error>(before, block_id),
            )
        },
    }
}

/// A service synchronizing the knowledge about the chain between the nodes.
pub struct Service<CS: ChainStatus, V: Verifier, F: Finalizer> {
    handler: Handler<CS, V, F>,
    tasks: TaskQueue,
    broadcast_ticker: Ticker,
    stall: StallDetector,
}

impl<CS: ChainStatus, V: Verifier, F: Finalizer> View for Service<CS, V, F> {
    type V = ServiceView;

    closed spec fn view(&self) -> ServiceView {
        ServiceView {
            tasks: self.tasks@,
            ticker: self.broadcast_ticker@,
            forest: self.handler.forest(),
            last_top_number: self.stall.last_top_number,
        }
    }
}

impl<CS: ChainStatus, V: Verifier, F: Finalizer> Service<CS, V, F> {
    /// The chain that the service consults.
    pub closed spec fn chain_status(&self) -> CS {
        self.handler.chain_status()
    }

    /// The verifier that the service asks.
    pub closed spec fn checker(&self) -> V {
        self.handler.checker()
    }

    /// The finalizer that the service hands blocks to.
    pub closed spec fn finalizer(&self) -> F {
        self.handler.finalizer()
    }

    /// The number of blocks in a session.
    pub closed spec fn period(&self) -> int {
        self.handler.period()
    }

    /// Whether the service has the collaborators and the sessions that
    /// `before` has.
    pub open spec fn keeps(&self, before: Self) -> bool {
        &&& self.chain_status() == before.chain_status()
        &&& self.checker() == before.checker()
        &&& self.finalizer() == before.finalizer()
        &&& self.period() == before.period()
    }

    /// What holds of the parts of the service.
    pub closed spec fn inv(&self) -> bool {
        self.handler.wf() && self.tasks.wf()
    }

    /// The parts of the service are sound, and so is the whole.
    pub open spec fn wf(&self) -> bool {
        self.inv() && self@.wf()
    }

    /// The sessions of a sound service have at least one block.
    pub proof fn lemma_wf(&self)
        requires
            self.wf(),
        ensures
            self.period() > 0,
    {
        self.handler.lemma_wf();
    }

    /// Create a new service on the chain `chain_status`, with no task
    /// waiting and the first broadcast due one period after `now`. The
    /// forest knows the top finalized block that the chain gives and nothing
    /// else; where the chain gives none, its failure is handed back.
    pub fn new(
        now: u64,
        chain_status: CS,
        verifier: V,
        finalizer: F,
        period: SessionPeriod,
    ) -> (result: Result<Self, Error<CS::Error, V::Error, F::Error>>)
        requires
            period.0 > 0,
        ensures
            match result {
                Ok(service) => {
                    &&& service.wf()
                    &&& service.chain_status() == chain_status
                    &&& service.checker() == verifier
                    &&& service.finalizer() == finalizer
                    &&& service.period() == period.0
                    &&& service@ == (ServiceView {
                        tasks: Seq::empty(),
                        ticker: TickerView {
                            last_reset: now,
                            current_timeout: BROADCAST_PERIOD,
                            max_timeout: BROADCAST_PERIOD,
                            min_timeout: BROADCAST_COOLDOWN,
                        },
                        forest: service@.forest,
                        last_top_number: 0,
                    })
                    &&& forest_planted(
                        chain_status,
                        Ok::<ForestView, Error<CS::Error, V::Error, F::Error>>(service@.forest),
                    )
                },
                Err(error) => forest_planted(
                    chain_status,
                    Err::<ForestView, Error<CS::Error, V::Error, F::Error>>(error),
                ),
            },
    {
        let handler = match Handler::new(chain_status, verifier, finalizer, period) {
            Ok(handler) => handler,
            Err(error) => {
                return Err(error);
            },
        };
        proof {
            handler.lemma_wf();
        }
        let tasks = TaskQueue::new();
        let broadcast_ticker = Ticker::new(now, BROADCAST_PERIOD, BROADCAST_COOLDOWN);
        Ok(Service { handler, tasks, broadcast_ticker, stall: StallDetector::new() })
    }

    /// The instant at which the earliest task is due, if any task waits.
    pub fn next_task_time(&self) -> (time: Option<u64>)
        ensures
            time == if self@.tasks.len() == 0 {
                None
            } else {
                Some(self@.tasks[0].scheduled_time)
            },
    {
        self.tasks.next_scheduled_time()
    }

    /// The tasks that wait, in the order in which they are due.
    pub fn scheduled_tasks(&self) -> (tasks: Vec<ScheduledTask>)
        ensures
            tasks@ == self@.tasks,
    {
        self.tasks.scheduled_tasks()
    }

    /// The finalized frontier of the forest.
    pub fn frontier(&self) -> (root: BlockId)
        ensures
            root == self@.forest.root,
    {
        self.handler.frontier()
    }

    /// How long from `now` until the next broadcast is due, in milliseconds.
    pub fn time_to_broadcast(&self, now: u64) -> (wait: u64)
        ensures
            wait == if self@.ticker.due(now) {
                0
            } else {
                self@.ticker.current_timeout - self@.ticker.elapsed(now)
            },
    {
        let mut ticker = self.broadcast_ticker;
        match ticker.wait_and_tick(now) {
            Tick::Fired => 0,
            Tick::Wait(wait) => wait,
        }
    }

    /// The interest that the node has in the block `id`. There is none in a
    /// block at or below the finalized frontier. No peer is named twice.
    pub fn block_state(&self, id: &BlockId) -> (interest: Interest)
        requires
            self.wf(),
        ensures
            interest@ == self@.forest.state(*id),
            interest.peers_distinct(),
            id.number <= self@.forest.root.number ==> interest@ == InterestView::Uninterested,
    {
        self.handler.block_state(id)
    }

    /// Schedules a request for `block_id` five seconds from `now`.
    pub fn backup_request(&mut self, now: u64, block_id: BlockId)
        requires
            old(self).wf(),
        ensures
            final(self).wf(),
            final(self).keeps(*old(self)),
            final(self)@ == old(self)@.with_request(block_id, now, BACKUP_REQUEST_DELAY),
    {
        proof {
            lemma_scheduled(self.tasks@, block_id, instant_after(now, BACKUP_REQUEST_DELAY));
        }
        self.tasks.schedule_in(block_id, now, BACKUP_REQUEST_DELAY);
    }

    /// Schedules a request for `block_id` half a second from `now`.
    pub fn delayed_request(&mut self, now: u64, block_id: BlockId)
        requires
            old(self).wf(),
        ensures
            final(self).wf(),
            final(self).keeps(*old(self)),
            final(self)@ == old(self)@.with_request(block_id, now, DELAYED_REQUEST_DELAY),
    {
        proof {
            lemma_scheduled(self.tasks@, block_id, instant_after(now, DELAYED_REQUEST_DELAY));
        }
        self.tasks.schedule_in(block_id, now, DELAYED_REQUEST_DELAY);
    }

    /// Schedules a request for `block_id` at `now`.
    pub fn request(&mut self, now: u64, block_id: BlockId)
        requires
            old(self).wf(),
        ensures
            final(self).wf(),
            final(self).keeps(*old(self)),
            final(self)@ == old(self)@.with_request(block_id, now, REQUEST_DELAY),
    {
        proof {
            lemma_scheduled(self.tasks@, block_id, instant_after(now, REQUEST_DELAY));
        }
        self.tasks.schedule_in(block_id, now, REQUEST_DELAY);
    }

    /// The broadcast of the node's own state as the chain gives it, or the
    /// failure of the chain.
    pub fn broadcast(&self) -> (result: Result<Outbound, Error<CS::Error, V::Error, F::Error>>)
        ensures
            state_broadcast(
                self.chain_status(),
                match result {
                    Ok(message) => Ok(message@),
                    Err(error) => Err(error),
                },
            ),
    {
        match self.handler.state() {
            Ok(state) => Ok(Outbound::Broadcast(NetworkData::StateBroadcast(state))),
            Err(error) => Err(error),
        }
    }

    /// The request for `block_id` to some of `peers`, with the node's own
    /// state as the chain gives it, or the failure of the chain.
    pub fn send_request_for(
        &self,
        block_id: BlockId,
        branch_knowledge: BranchKnowledge,
        peers: Vec<PeerId>,
    ) -> (result: Result<Outbound, Error<CS::Error, V::Error, F::Error>>)
        ensures
            request_sent(
                self.chain_status(),
                block_id,
                branch_knowledge,
                peers@.to_set(),
                match result {
                    Ok(message) => Ok(message@),
                    Err(error) => Err(error),
                },
            ),
    {
        match self.handler.state() {
            Ok(state) => {
                let request = Request::new(block_id, branch_knowledge, state);
                Ok(Outbound::SendToRandom(NetworkData::Request(request), peers))
            },
            Err(error) => Err(error),
        }
    }

    /// The message that carries `data` to `peer`.
    pub fn send_to(data: NetworkData, peer: PeerId) -> (outbound: Outbound)
        ensures
            outbound@ == OutboundView::SendTo(data@, peer),
    {
        Outbound::SendTo(data, peer)
    }

    /// Carries out what the handler recommended: a response goes to `peer`,
    /// a task is scheduled at `now`.
    pub fn perform_sync_action(&mut self, now: u64, action: SyncAction, peer: PeerId) -> (outbound:
        Option<Outbound>)
        requires
            old(self).wf(),
        ensures
            final(self).wf(),
            final(self).keeps(*old(self)),
            final(self)@ == (ServiceView {
                tasks: spec_perform(old(self)@.tasks, action@, now, peer).0,
                ..old(self)@
            }),
            outbound_view(outbound) == spec_perform(old(self)@.tasks, action@, now, peer).1,
    {
        match action {
            SyncAction::Response(data) => Some(Self::send_to(data, peer)),
            SyncAction::Task(block_id) => {
                self.request(now, block_id);
                None
            },
            SyncAction::Noop => None,
        }
    }

    /// Handles the state that `peer` announced: the handler decides it, its
    /// response goes to `peer`, its task is scheduled at `now`, and its
    /// failure is handed back.
    pub fn handle_state(&mut self, now: u64, state: State, peer: PeerId) -> (result: Result<
        Option<Outbound>,
        Error<CS::Error, V::Error, F::Error>,
    >)
        requires
            old(self).wf(),
        ensures
            final(self).wf(),
            final(self).keeps(*old(self)),
            state_handled(
                old(self).checker(),
                old(self).chain_status(),
                old(self).finalizer(),
                old(self).period(),
                old(self)@,
                final(self)@,
                now,
                state@,
                peer,
                sent(result),
            ),
    {
        let ghost announced = state@;
        let decision = self.handler.handle_state(state, peer);
        proof {
            self.handler.lemma_wf();
        }
        let ghost decided = decision;
        let ghost reacted = self@.forest;
        let result = match decision {
            Ok(action) => Ok(self.perform_sync_action(now, action, peer)),
            Err(error) => Err(error),
        };
        proof {
            assert(self@.forest == reacted);
            assert(state_decided(
                old(self).checker(),
                old(self).chain_status(),
                old(self).finalizer(),
                old(self)@.forest,
                self@.forest,
                old(self).period(),
                announced,
                peer,
                decided,
            ));
            assert(sent(result) == outcome_of(decided, peer));
            assert(self@.tasks == tasks_after(old(self)@.tasks, decided, now));
        }
        result
    }

    /// Schedules the requests that follow a batch of justifications:
    /// `extended` lists, in the order in which they arrived, the blocks
    /// whose justification extended what was known, and `complete` says
    /// whether the whole batch was handled.
    pub fn schedule_follow_ups(&mut self, now: u64, extended: &Vec<BlockId>, complete: bool)
        requires
            old(self).wf(),
        ensures
            final(self).wf(),
            final(self).keeps(*old(self)),
            final(self)@ == (ServiceView {
                tasks: spec_follow_ups(old(self)@.tasks, extended@, now, complete),
                ..old(self)@
            }),
    {
        if extended.len() == 0 {
            return ;
        }
        let last = extended.len() - 1;
        let mut i: usize = 0;
        while i < last
            invariant
                self.wf(),
                self.keeps(*old(self)),
                0 <= i <= last,
                last == extended@.len() - 1,
                self@ == (ServiceView {
                    tasks: spec_backups(old(self)@.tasks, extended@.subrange(0, i as int), now),
                    ..old(self)@
                }),
            decreases last - i,
        {
            proof {
                assert(extended@.subrange(0, i + 1).drop_last() =~= extended@.subrange(
                    0,
                    i as int,
                ));
            }
            self.backup_request(now, extended[i]);
            i = i + 1;
        }
        proof {
            assert(extended@.subrange(0, last as int) =~= extended@.drop_last());
        }
        if complete {
            self.request(now, extended[last]);
        }
    }

    /// Handles a batch of justifications in the order received, each with
    /// `peer`, and schedules the requests that follow. Handling stops at the
    /// first justification that fails, and its failure is handed back.
    pub fn handle_justifications(
        &mut self,
        now: u64,
        justifications: Vec<Justification>,
        peer: Option<PeerId>,
    ) -> (result: Result<(), Error<CS::Error, V::Error, F::Error>>)
        requires
            old(self).wf(),
        ensures
            final(self).wf(),
            final(self).keeps(*old(self)),
            batch_handled(
                old(self).checker(),
                old(self).finalizer(),
                old(self).period(),
                old(self)@,
                final(self)@,
                now,
                views_of(justifications@),
                peer,
                error_of(result),
            ),
    {
        let ghost batch = views_of(justifications@);
        let mut rest = justifications;
        let mut queue: Vec<Justification> = Vec::new();
        // The batch is handled front to back; taking from the back of the
        // reversed batch does that.
        while rest.len() > 0
            invariant
                rest@.len() <= justifications@.len(),
                rest@ == justifications@.subrange(0, rest@.len() as int),
                queue@.len() + rest@.len() == justifications@.len(),
                forall|k: int|
                    0 <= k < queue@.len() ==> #[trigger] queue@[k] == justifications@[
                        justifications@.len() - 1 - k],
            decreases rest@.len(),
        {
            let ghost length = rest@.len();
            match rest.pop() {
                Some(justification) => {
                    proof {
                        assert(justification == justifications@[length - 1]);
                        assert(rest@ =~= justifications@.subrange(0, length - 1));
                    }
                    queue.push(justification);
                },
                None => {},
            }
        }
        let mut extended: Vec<BlockId> = Vec::new();
        let mut failure: Option<Error<CS::Error, V::Error, F::Error>> = None;
        let ghost mut forests: Seq<ForestView> = seq![self@.forest];
        let ghost mut outcomes: Seq<Result<Option<BlockId>, Error<CS::Error, V::Error, F::Error>>> =
            Seq::empty();
        proof {
            assert(news_of(outcomes) =~= extended@);
        }
        while queue.len() > 0 && failure.is_none()
            invariant
                self.wf(),
                self.keeps(*old(self)),
                queue@.len() <= batch.len(),
                batch == views_of(justifications@),
                forall|k: int|
                    0 <= k < queue@.len() ==> #[trigger] queue@[k] == justifications@[
                        justifications@.len() - 1 - k],
                outcomes.len() + queue@.len() == batch.len(),
                forests.len() == outcomes.len() + 1,
                forests[0] == old(self)@.forest,
                forests.last() == self@.forest,
                forall|i: int|
                    0 <= i < outcomes.len() ==> justification_decided(
                        old(self).checker(),
                        old(self).finalizer(),
                        forests[i],
                        forests[i + 1],
                        old(self).period(),
                        batch[i],
                        peer,
                        #[trigger] outcomes[i],
                    ),
                forall|i: int| 0 <= i < outcomes.len() - 1 ==> (#[trigger] outcomes[i]) is Ok,
                failure == batch_failure(outcomes),
                extended@ == news_of(outcomes),
                self@ == (ServiceView { forest: self@.forest, ..old(self)@ }),
            decreases queue@.len() + if failure is None { 1int } else { 0int },
        {
            let ghost index = outcomes.len() as int;
            match queue.pop() {
                Some(justification) => {
                    proof {
                        assert(justification == justifications@[index]);
                        assert(justification@ == batch[index]);
                    }
                    let ghost before = self@.forest;
                    let outcome = self.handler.handle_justification(justification, peer);
                    proof {
                        self.handler.lemma_wf();
                        let longer = outcomes.push(outcome);
                        let grown = forests.push(self@.forest);
                        assert(longer.drop_last() =~= outcomes);
                        assert forall|i: int| 0 <= i < longer.len() implies justification_decided(
                            old(self).checker(),
                            old(self).finalizer(),
                            grown[i],
                            grown[i + 1],
                            old(self).period(),
                            batch[i],
                            peer,
                            #[trigger] longer[i],
                        ) by {
                            if i < outcomes.len() {
                                assert(longer[i] == outcomes[i]);
                                assert(grown[i] == forests[i]);
                                assert(grown[i + 1] == forests[i + 1]);
                            } else {
                                assert(grown[i] == before);
                            }
                        }
                        assert forall|i: int| 0 <= i < longer.len() - 1 implies (
                        #[trigger] longer[i]) is Ok by {
                            assert(longer[i] == outcomes[i]);
                            if i == outcomes.len() - 1 {
                                assert(batch_failure(outcomes) is None);
                            }
                        }
                        outcomes = longer;
                        forests = grown;
                    }
                    match outcome {
                        Ok(Some(block_id)) => {
                            extended.push(block_id);
                        },
                        Ok(None) => {},
                        Err(error) => {
                            failure = Some(error);
                        },
                    }
                },
                None => {},
            }
        }
        let complete = failure.is_none();
        self.schedule_follow_ups(now, &extended, complete);
        proof {
            assert(batch_steps(
                old(self).checker(),
                old(self).finalizer(),
                old(self).period(),
                old(self)@.forest,
                batch,
                peer,
                forests,
                outcomes,
            ));
        }
        match failure {
            None => Ok(()),
            Some(error) => Err(error),
        }
    }

    /// Handles a request of `peer`: the handler decides it, its response
    /// goes to `peer`, and its failure is handed back. The service stays as
    /// it is.
    pub fn handle_request(&mut self, now: u64, request: Request, peer: PeerId) -> (result: Result<
        Option<Outbound>,
        Error<CS::Error, V::Error, F::Error>,
    >)
        requires
            old(self).wf(),
        ensures
            final(self).wf(),
            final(self).keeps(*old(self)),
            final(self)@ == old(self)@,
            request_handled(old(self).chain_status(), request@, peer, sent(result)),
    {
        let ghost asked = request@;
        let decision = self.handler.handle_request(request);
        let ghost decided = decision;
        let result = match decision {
            Ok(action) => Ok(self.perform_sync_action(now, action, peer)),
            Err(error) => Err(error),
        };
        proof {
            assert(request_decided(old(self).chain_status(), asked, decided));
            assert(sent(result) == outcome_of(decided, peer));
        }
        result
    }

    /// Handles what `peer` sent, and hands back what goes out and what
    /// failed. Whatever goes out goes to `peer`.
    pub fn handle_network_data(&mut self, now: u64, data: NetworkData, peer: PeerId) -> (handled: (
        Vec<Outbound>,
        Vec<Error<CS::Error, V::Error, F::Error>>,
    ))
        requires
            old(self).wf(),
        ensures
            final(self).wf(),
            final(self).keeps(*old(self)),
            network_data_handled(
                old(self).checker(),
                old(self).chain_status(),
                old(self).finalizer(),
                old(self).period(),
                old(self)@,
                final(self)@,
                now,
                data@,
                peer,
                outbound_views(handled.0@),
                handled.1@,
            ),
            outbound_views(handled.0@).len() == handled.0@.len(),
            handled.0@.len() <= 2,
    {
        let mut outbound: Vec<Outbound> = Vec::new();
        let mut failures: Vec<Error<CS::Error, V::Error, F::Error>> = Vec::new();
        match data {
            NetworkData::StateBroadcast(state) => {
                let result = self.handle_state(now, state, peer);
                let ghost handed = sent(result);
                match result {
                    Ok(Some(message)) => {
                        outbound.push(message);
                    },
                    Ok(None) => {},
                    Err(error) => {
                        failures.push(error);
                    },
                }
                proof {
                    assert(outbound_views(outbound@) =~= messages_of(handed));
                    assert(failures@ =~= failures_of(handed));
                    assert(network_data_handled(
                        old(self).checker(),
                        old(self).chain_status(),
                        old(self).finalizer(),
                        old(self).period(),
                        old(self)@,
                        self@,
                        now,
                        data@,
                        peer,
                        outbound_views(outbound@),
                        failures@,
                    ));
                }
            },
            NetworkData::StateBroadcastResponse(justification, maybe_justification) => {
                let ghost first = justification@;
                let ghost second = crate::forest::view_of(maybe_justification);
                let mut justifications: Vec<Justification> = Vec::new();
                justifications.push(justification);
                match maybe_justification {
                    Some(second) => {
                        justifications.push(second);
                    },
                    None => {},
                }
                proof {
                    assert(views_of(justifications@) =~= pair(first, second));
                }
                let result = self.handle_justifications(now, justifications, Some(peer));
                let ghost failure = error_of(result);
                match result {
                    Ok(_) => {},
                    Err(error) => {
                        failures.push(error);
                    },
                }
                proof {
                    assert(failures@ =~= optional_failure(failure));
                    assert(outbound_views(outbound@).len() == 0);
                    assert(network_data_handled(
                        old(self).checker(),
                        old(self).chain_status(),
                        old(self).finalizer(),
                        old(self).period(),
                        old(self)@,
                        self@,
                        now,
                        data@,
                        peer,
                        outbound_views(outbound@),
                        failures@,
                    ));
                }
            },
            NetworkData::Request(request) => {
                let state = request.state().clone();
                let answer = self.handle_request(now, request, peer);
                let ghost answered = sent(answer);
                match answer {
                    Ok(Some(message)) => {
                        outbound.push(message);
                    },
                    Ok(None) => {},
                    Err(error) => {
                        failures.push(error);
                    },
                }
                let reaction = self.handle_state(now, state, peer);
                let ghost reacted = sent(reaction);
                match reaction {
                    Ok(Some(message)) => {
                        outbound.push(message);
                    },
                    Ok(None) => {},
                    Err(error) => {
                        failures.push(error);
                    },
                }
                proof {
                    assert(outbound_views(outbound@) =~= messages_of(answered) + messages_of(
                        reacted,
                    ));
                    assert(failures@ =~= failures_of(answered) + failures_of(reacted));
                    assert(network_data_handled(
                        old(self).checker(),
                        old(self).chain_status(),
                        old(self).finalizer(),
                        old(self).period(),
                        old(self)@,
                        self@,
                        now,
                        data@,
                        peer,
                        outbound_views(outbound@),
                        failures@,
                    ));
                }
            },
            NetworkData::RequestResponse(state, justifications) => {
                let ghost batch = views_of(justifications@);
                proof {
                    assert(data@ == NetworkDataView::RequestResponse(state@, batch));
                }
                let result = self.handle_justifications(now, justifications, Some(peer));
                let ghost failure = error_of(result);
                proof {
                    assert(batch_handled(
                        old(self).checker(),
                        old(self).finalizer(),
                        old(self).period(),
                        old(self)@,
                        self@,
                        now,
                        batch,
                        Some(peer),
                        failure,
                    ));
                }
                match result {
                    Ok(_) => {},
                    Err(error) => {
                        failures.push(error);
                    },
                }
                proof {
                    assert(failures@ =~= optional_failure(failure));
                    assert(outbound_views(outbound@).len() == 0);
                    assert(failures@ == optional_failure(failure));
                    assert(batch_outcome(
                        old(self).checker(),
                        old(self).finalizer(),
                        old(self).period(),
                        old(self)@,
                        self@,
                        now,
                        batch,
                        Some(peer),
                        outbound_views(outbound@),
                        failures@,
                    ));
                    assert(network_data_handled(
                        old(self).checker(),
                        old(self).chain_status(),
                        old(self).finalizer(),
                        old(self).period(),
                        old(self)@,
                        self@,
                        now,
                        NetworkDataView::RequestResponse(state@, batch),
                        peer,
                        outbound_views(outbound@),
                        failures@,
                    ));
                }
            },
        }
        (outbound, failures)
    }

    /// Handles the task for `block_id` at `now`. A block that the node has
    /// no interest in is dropped. Any other block is requested from the
    /// peers that know most about it, and the request is scheduled again:
    /// half a second from `now` for the highest justified and the top
    /// required block, five seconds from `now` for any other. Where the
    /// chain gives no state for the request, its failure is handed back.
    pub fn handle_task(&mut self, now: u64, block_id: BlockId) -> (result: Result<
        Option<Outbound>,
        Error<CS::Error, V::Error, F::Error>,
    >)
        requires
            old(self).wf(),
        ensures
            final(self).wf(),
            final(self).keeps(*old(self)),
            task_handled(
                old(self).chain_status(),
                old(self)@,
                final(self)@,
                now,
                block_id,
                sent(result),
            ),
    {
        match self.handler.block_state(&block_id) {
            Interest::HighestJustified { know_most, branch_knowledge } => {
                let request = self.send_request_for(block_id, branch_knowledge, know_most);
                self.delayed_request(now, block_id);
                match request {
                    Ok(message) => Ok(Some(message)),
                    Err(error) => Err(error),
                }
            },
            Interest::TopRequired { know_most, branch_knowledge } => {
                let request = self.send_request_for(block_id, branch_knowledge, know_most);
                self.delayed_request(now, block_id);
                match request {
                    Ok(message) => Ok(Some(message)),
                    Err(error) => Err(error),
                }
            },
            Interest::Required { know_most, branch_knowledge } => {
                let request = self.send_request_for(block_id, branch_knowledge, know_most);
                self.backup_request(now, block_id);
                match request {
                    Ok(message) => Ok(Some(message)),
                    Err(error) => Err(error),
                }
            },
            Interest::Uninterested => Ok(None),
        }
    }

    /// Takes the earliest task if it is due at `now`, and handles it.
    pub fn handle_due_task(&mut self, now: u64) -> (result: Result<
        Option<Outbound>,
        Error<CS::Error, V::Error, F::Error>,
    >)
        requires
            old(self).wf(),
        ensures
            final(self).wf(),
            final(self).keeps(*old(self)),
            due_task_handled(old(self).chain_status(), old(self)@, final(self)@, now, sent(result)),
    {
        match self.tasks.pop(now) {
            Some(block_id) => self.handle_task(now, block_id),
            None => Ok(None),
        }
    }

    /// Handles what the chain reported. An imported block is handed to the
    /// handler. A finalized block brings the next broadcast forward, unless
    /// the last one was less than a cooldown ago.
    pub fn handle_chain_event(&mut self, now: u64, event: ChainStatusNotification) -> (result:
        Result<Option<Outbound>, Error<CS::Error, V::Error, F::Error>>)
        requires
            old(self).wf(),
        ensures
            final(self).wf(),
            final(self).keeps(*old(self)),
            chain_event_handled(
                old(self).chain_status(),
                old(self).finalizer(),
                old(self).period(),
                old(self)@,
                final(self)@,
                now,
                event,
                sent(result),
            ),
    {
        match event {
            ChainStatusNotification::BlockImported(header) => {
                let outcome = self.handler.block_imported(header);
                proof {
                    self.handler.lemma_wf();
                }
                match outcome {
                    Ok(_) => Ok(None),
                    Err(error) => Err(error),
                }
            },
            ChainStatusNotification::BlockFinalized(_) => {
                if self.broadcast_ticker.try_tick(now) {
                    match self.broadcast() {
                        Ok(message) => Ok(Some(message)),
                        Err(error) => Err(error),
                    }
                } else {
                    Ok(None)
                }
            },
        }
    }

    /// Handles the time of a broadcast: broadcasts the node's state if the
    /// ticker fires at `now`.
    pub fn handle_broadcast_tick(&mut self, now: u64) -> (result: Result<
        Option<Outbound>,
        Error<CS::Error, V::Error, F::Error>,
    >)
        requires
            old(self).wf(),
        ensures
            final(self).wf(),
            final(self).keeps(*old(self)),
            broadcast_tick_handled(
                old(self).chain_status(),
                old(self)@,
                final(self)@,
                now,
                sent(result),
            ),
    {
        match self.broadcast_ticker.wait_and_tick(now) {
            Tick::Fired => match self.broadcast() {
                Ok(message) => Ok(Some(message)),
                Err(error) => Err(error),
            },
            Tick::Wait(_) => Ok(None),
        }
    }

    /// Checks for a stall of finalization, given the height of the top
    /// finalized block. Where the height is what it was at the last check,
    /// the forest is rebuilt from the chain, once. Hands back whether a
    /// stall was found, and the failure of the rebuilding.
    pub fn handle_stall_check_at(&mut self, top_number: u32) -> (checked: (
        bool,
        Option<Error<CS::Error, V::Error, F::Error>>,
    ))
        requires
            old(self).wf(),
        ensures
            final(self).wf(),
            final(self).keeps(*old(self)),
            stall_handled(
                old(self).chain_status(),
                old(self)@,
                final(self)@,
                top_number,
                checked.0,
                checked.1,
            ),
    {
        if self.stall.check(top_number) {
            let refreshed = self.handler.refresh_forest();
            proof {
                self.handler.lemma_wf();
            }
            match refreshed {
                Ok(_) => (true, None),
                Err(error) => (true, Some(error)),
            }
        } else {
            (false, None)
        }
    }

    /// Checks for a stall of finalization: asks the chain for its top
    /// finalized block and compares its height with the height at the last
    /// check. Hands back whether a stall was found, and what failed: the
    /// chain when asked for its top, or the rebuilding of the forest.
    pub fn handle_stall_check(&mut self) -> (checked: (
        bool,
        Option<Error<CS::Error, V::Error, F::Error>>,
    ))
        requires
            old(self).wf(),
        ensures
            final(self).wf(),
            final(self).keeps(*old(self)),
            stall_check_decided(
                old(self).chain_status(),
                old(self)@,
                final(self)@,
                checked.0,
                checked.1,
            ),
    {
        match self.handler.state() {
            Ok(state) => {
                let ghost top = state@;
                proof {
                    assert(top_known(self.chain_status(), top));
                }
                let top_number = state.top_justification().id().number;
                self.handle_stall_check_at(top_number)
            },
            Err(Error::ChainStatus(error)) => {
                proof {
                    assert(self.chain_status().top_finalized_gives(
                        Err::<Justification, CS::Error>(error),
                    ));
                }
                (false, Some(Error::ChainStatus(error)))
            },
            Err(error) => (false, Some(error)),
        }
    }

    /// Handles the user's request for the block `block_id`: the block is
    /// marked as required, and requested at `now` unless it was required
    /// already. The refusal of the forest is handed back.
    pub fn handle_block_request(&mut self, now: u64, block_id: BlockId) -> (result: Result<
        (),
        Error<CS::Error, V::Error, F::Error>,
    >)
        requires
            old(self).wf(),
        ensures
            final(self).wf(),
            final(self).keeps(*old(self)),
            final(self)@ == block_requested(old(self)@, block_id, now),
            error_of(result) == block_request_failure::<CS::Error, V::Error, F::Error>(
                old(self)@,
                block_id,
            ),
    {
        proof {
            self.handler.lemma_wf();
            crate::forest_model::lemma_update_block_identifier_wf(
                self@.forest,
                block_id,
                None,
                true,
            );
        }
        match self.handler.handle_internal_request(&block_id) {
            Ok(SyncAction::Task(id)) => {
                self.request(now, id);
                Ok(())
            },
            Ok(_) => Ok(()),
            Err(error) => Err(error),
        }
    }

    /// Handles one event at `now`, and hands back what is to be sent and
    /// what failed.
    pub fn handle_event(&mut self, now: u64, event: Event) -> (handled: (
        Vec<Outbound>,
        Vec<Error<CS::Error, V::Error, F::Error>>,
    ))
        requires
            old(self).wf(),
        ensures
            final(self).wf(),
            final(self).keeps(*old(self)),
            event_handled(
                old(self).checker(),
                old(self).chain_status(),
                old(self).finalizer(),
                old(self).period(),
                old(self)@,
                final(self)@,
                now,
                event,
                outbound_views(handled.0@),
                handled.1@,
            ),
            outbound_views(handled.0@).len() == handled.0@.len(),
            handled.0@.len() <= 2,
    {
        let mut outbound: Vec<Outbound> = Vec::new();
        let mut failures: Vec<Error<CS::Error, V::Error, F::Error>> = Vec::new();
        let result = match event {
            Event::Network(data, peer) => {
                return self.handle_network_data(now, data, peer);
            },
            Event::Task => self.handle_due_task(now),
            Event::BroadcastTick => self.handle_broadcast_tick(now),
            Event::Chain(notification) => self.handle_chain_event(now, notification),
            Event::JustificationFromUser(justification) => {
                let ghost only = justification@;
                let mut justifications: Vec<Justification> = Vec::new();
                justifications.push(justification);
                proof {
                    assert(views_of(justifications@) =~= seq![only]);
                }
                let result = self.handle_justifications(now, justifications, None);
                let ghost failure = error_of(result);
                match result {
                    Ok(_) => {},
                    Err(error) => {
                        failures.push(error);
                    },
                }
                proof {
                    assert(failures@ =~= optional_failure(failure));
                    assert(outbound_views(outbound@).len() == 0);
                }
                return (outbound, failures);
            },
            Event::AdditionalJustificationFromUser(justification) => {
                let ghost only = justification@;
                let mut justifications: Vec<Justification> = Vec::new();
                justifications.push(justification);
                proof {
                    assert(views_of(justifications@) =~= seq![only]);
                }
                let result = self.handle_justifications(now, justifications, None);
                let ghost failure = error_of(result);
                match result {
                    Ok(_) => {},
                    Err(error) => {
                        failures.push(error);
                    },
                }
                proof {
                    assert(failures@ =~= optional_failure(failure));
                    assert(outbound_views(outbound@).len() == 0);
                }
                return (outbound, failures);
            },
            Event::StallCheck => {
                let (stalled, failure) = self.handle_stall_check();
                let ghost failed = failure;
                match failure {
                    Some(error) => {
                        failures.push(error);
                    },
                    None => {},
                }
                proof {
                    assert(failures@ =~= optional_failure(failed));
                    assert(outbound_views(outbound@).len() == 0);
                    assert(stall_check_decided(
                        old(self).chain_status(),
                        old(self)@,
                        self@,
                        stalled,
                        failed,
                    ));
                }
                return (outbound, failures);
            },
            Event::BlockRequest(block_id) => {
                let result = self.handle_block_request(now, block_id);
                let ghost failure = error_of(result);
                match result {
                    Ok(_) => {},
                    Err(error) => {
                        failures.push(error);
                    },
                }
                proof {
                    assert(failures@ =~= optional_failure(failure));
                    assert(outbound_views(outbound@).len() == 0);
                }
                return (outbound, failures);
            },
        };
        let ghost handed = sent(result);
        match result {
            Ok(Some(message)) => {
                outbound.push(message);
            },
            Ok(None) => {},
            Err(error) => {
                failures.push(error);
            },
        }
        proof {
            assert(outbound_views(outbound@) =~= messages_of(handed));
            assert(failures@ =~= failures_of(handed));
        }
        (outbound, failures)
    }
}

} // verus!
