//! The decisions of synchronisation that depend on plain values alone.

use vstd::prelude::*;
use vstd::arithmetic::div_mod::lemma_div_is_ordered;
use crate::block::BlockId;
use crate::data::{views_of, BranchKnowledge, NetworkData, NetworkDataView, State};
use crate::forest_model::MAX_DEPTH;
use crate::justification::{Justification, JustificationView};
use crate::session::{session_of, SessionBoundaryInfo};

verus! {

/// What a node does with the state that a peer announced.
#[derive(Clone, Copy, Debug, PartialEq, Eq, Structural)]
pub enum StateReaction {
    /// The peer is not behind: take its top justification in.
    Import,
    /// The peer is behind within our session: send our top justification.
    SendTop,
    /// The peer is one session behind: send the justification that ends its
    /// session, and our top justification.
    SendSessionEndAndTop,
    /// The peer is further behind: send the justifications that end its
    /// session and the next.
    SendSessionEnds,
}

/// The reaction to a peer whose top finalized block has height `remote`,
/// where ours has height `local` and sessions have `period` blocks.
pub open spec fn spec_state_reaction(period: int, local: u32, remote: u32) -> StateReaction {
    let local_session = session_of(local as int, period);
    let remote_session = session_of(remote as int, period);
    if remote_session > local_session {
        StateReaction::Import
    } else if remote_session == local_session {
        if remote >= local {
            StateReaction::Import
        } else {
            StateReaction::SendTop
        }
    } else if local_session - remote_session == 1 {
        StateReaction::SendSessionEndAndTop
    } else {
        StateReaction::SendSessionEnds
    }
}

/// Decides what to do with the state that a peer announced.
pub fn state_reaction(info: &SessionBoundaryInfo, local: u32, remote: u32) -> (reaction:
    StateReaction)
    requires
        info.wf(),
    ensures
        reaction == spec_state_reaction(info.period(), local, remote),
{
    let local_session = info.session_id_from_block_num(local).0;
    let remote_session = info.session_id_from_block_num(remote).0;
    if remote_session > local_session {
        StateReaction::Import
    } else if remote_session == local_session {
        if remote >= local {
            StateReaction::Import
        } else {
            StateReaction::SendTop
        }
    } else if local_session - remote_session == 1 {
        StateReaction::SendSessionEndAndTop
    } else {
        StateReaction::SendSessionEnds
    }
}

/// A peer gets a response exactly when it is behind: the top justification of
/// a peer that is level or ahead is taken in instead.
pub proof fn lemma_response_only_to_peers_behind(period: int, local: u32, remote: u32)
    requires
        period > 0,
    ensures
        spec_state_reaction(period, local, remote) == StateReaction::Import <==> remote >= local,
{
    if remote >= local {
        lemma_div_is_ordered(local as int, remote as int, period);
    } else {
        lemma_div_is_ordered(remote as int, local as int, period);
    }
}

/// What a node does with a request.
#[derive(Clone, Copy, Debug, PartialEq, Eq, Structural)]
pub enum RequestPlan {
    /// The request names a block below the horizon: it is refused.
    BelowHorizon,
    /// The requester needs nothing that this node has finalized.
    Nothing,
    /// The requester needs the justifications of the heights `from` to `to`,
    /// both included.
    Range { from: u32, to: u32 },
}

/// The height below which this node serves no requests.
pub open spec fn spec_horizon(local_top: u32) -> u32 {
    if local_top > MAX_DEPTH {
        (local_top - MAX_DEPTH) as u32
    } else {
        0u32
    }
}

/// What to do with a request for `target` from a peer with the given
/// knowledge of the branch, at a node whose top finalized block has height
/// `local_top`.
pub open spec fn spec_request_plan(
    target: BlockId,
    knowledge: BranchKnowledge,
    local_top: u32,
) -> RequestPlan {
    let horizon = spec_horizon(local_top);
    let to = if target.number < local_top {
        target.number
    } else {
        local_top
    };
    if target.number < horizon || knowledge.spec_id().number < horizon {
        RequestPlan::BelowHorizon
    } else if knowledge.spec_covered() >= to {
        RequestPlan::Nothing
    } else {
        RequestPlan::Range { from: (knowledge.spec_covered() + 1) as u32, to }
    }
}

/// Decides what to do with a request.
pub fn request_plan(target: &BlockId, knowledge: &BranchKnowledge, local_top: u32) -> (plan:
    RequestPlan)
    ensures
        plan == spec_request_plan(*target, *knowledge, local_top),
{
    let horizon = local_top.saturating_sub(MAX_DEPTH);
    let to = if target.number < local_top {
        target.number
    } else {
        local_top
    };
    let covered = knowledge.covered();
    if target.number < horizon || knowledge.id().number < horizon {
        RequestPlan::BelowHorizon
    } else if covered >= to {
        RequestPlan::Nothing
    } else {
        RequestPlan::Range { from: covered + 1, to }
    }
}

/// A planned range lies above what the requester has, ends at the target or
/// below, within what this node has finalized, and is no longer than the
/// depth of the horizon allows.
pub proof fn lemma_request_plan_bridges_the_gap(
    target: BlockId,
    knowledge: BranchKnowledge,
    local_top: u32,
)
    ensures
        spec_request_plan(target, knowledge, local_top) matches RequestPlan::Range { from, to }
            ==> {
            &&& from == knowledge.spec_covered() + 1
            &&& from <= to
            &&& to <= target.number
            &&& to <= local_top
            &&& to == target.number || to == local_top
            &&& to - from <= MAX_DEPTH
        },
{
}

/// What the chain says of a height.
#[derive(Debug, PartialEq, Eq)]
pub enum FinalizationStatus {
    /// The block of this height is final, and this is its justification.
    FinalizedWithJustification(Justification),
    /// The block of this height is final because a descendant is.
    FinalizedByDescendant,
    /// No block of this height is final.
    NotFinalized,
}

impl FinalizationStatus {
    /// The justification that the status holds for the height `number`.
    pub open spec fn justification_for(&self, number: int) -> Option<JustificationView> {
        match self {
            FinalizationStatus::FinalizedWithJustification(justification) => {
                if justification@.number() == number {
                    Some(justification@)
                } else {
                    None
                }
            },
            _ => None,
        }
    }

    /// The justification inside, if the status holds one and it is for the
    /// height `number`.
    pub fn has_justification(self, number: u32) -> (justification: Option<Justification>)
        ensures
            crate::forest::view_of(justification) == self.justification_for(number as int),
    {
        match self {
            FinalizationStatus::FinalizedWithJustification(justification) => {
                if justification.id().number == number {
                    Some(justification)
                } else {
                    None
                }
            },
            _ => None,
        }
    }
}

/// The justifications among `statuses`, where `statuses[i]` is what the chain
/// says of the height `from + i`.
pub open spec fn spec_select(from: int, statuses: Seq<FinalizationStatus>) -> Seq<
    JustificationView,
>
    decreases statuses.len(),
{
    if statuses.len() == 0 {
        Seq::empty()
    } else {
        let front = spec_select(from, statuses.drop_last());
        match statuses.last().justification_for(from + statuses.len() - 1) {
            Some(justification) => front.push(justification),
            None => front,
        }
    }
}

/// Every selected justification is for a height of the range, and the
/// heights rise from one to the next.
pub proof fn lemma_select_within_range(from: int, statuses: Seq<FinalizationStatus>)
    ensures
        spec_select(from, statuses).len() <= statuses.len(),
        forall|i: int|
            0 <= i < spec_select(from, statuses).len() ==> from <= (#[trigger] spec_select(
                from,
                statuses,
            )[i]).number() < from + statuses.len(),
        forall|i: int, j: int|
            0 <= i < j < spec_select(from, statuses).len() ==> spec_select(
                from,
                statuses,
            )[i].number() < spec_select(from, statuses)[j].number(),
    decreases statuses.len(),
{
    if statuses.len() > 0 {
        lemma_select_within_range(from, statuses.drop_last());
    }
}

/// How far the node has a block.
#[derive(Clone, Copy, Debug, PartialEq, Eq, Structural)]
pub enum BlockStatus {
    /// The node does not know the block.
    Unknown,
    /// The node has the header of the block only.
    HeaderOnly,
    /// The node has imported the block.
    Imported,
}

/// Whether a planned range is served: the node has imported the requested
/// block, and the block that the requester's knowledge names is not a
/// stranger to the node.
pub open spec fn spec_serves(target: BlockStatus, knowledge: BlockStatus) -> bool {
    target == BlockStatus::Imported && knowledge != BlockStatus::Unknown
}

/// Decides whether a planned range is served.
pub fn serves(target: BlockStatus, knowledge: BlockStatus) -> (served: bool)
    ensures
        served == spec_serves(target, knowledge),
{
    match target {
        BlockStatus::Imported => match knowledge {
            BlockStatus::Unknown => false,
            _ => true,
        },
        _ => false,
    }
}

/// The response to a request: the node's own state, and the justifications
/// among `statuses`, where `statuses[i]` is what the chain says of the height
/// `from + i`.
pub fn request_response(
    local_top: Justification,
    from: u32,
    statuses: Vec<FinalizationStatus>,
) -> (response: NetworkData)
    ensures
        response@ == NetworkDataView::RequestResponse(
            local_top@,
            spec_select(from as int, statuses@),
        ),
{
    let justifications = select_justifications(from, statuses);
    NetworkData::RequestResponse(State::new(local_top.into_unverified()), justifications)
}

/// Picks the justifications out of what the chain said of the heights from
/// `from` on, one status per height.
pub fn select_justifications(from: u32, statuses: Vec<FinalizationStatus>) -> (selected: Vec<
    Justification,
>)
    ensures
        views_of(selected@) == spec_select(from as int, statuses@),
{
    let mut statuses = statuses;
    let ghost all = statuses@;
    let mut reversed: Vec<Justification> = Vec::new();
    // The statuses leave from the back, so the selection is built back to front.
    let ghost mut rest: Seq<JustificationView> = Seq::empty();
    while statuses.len() > 0
        invariant
            statuses@.len() <= all.len(),
            statuses@ == all.subrange(0, statuses@.len() as int),
            rest.len() == reversed@.len(),
            forall|i: int|
                0 <= i < rest.len() ==> (#[trigger] reversed@[i])@ == rest[rest.len() - 1 - i],
            spec_select(from as int, all) == spec_select(from as int, statuses@) + rest,
        decreases statuses@.len(),
    {
        let ghost before = statuses@;
        let offset: usize = statuses.len() - 1;
        match statuses.pop() {
            None => {},
            Some(status) => {
                proof {
                    assert(statuses@ =~= before.drop_last());
                    assert(statuses@ =~= all.subrange(0, statuses@.len() as int));
                    assert(status == before.last());
                }
                // No block has a height beyond the last that there is.
                let found = if offset > (u32::MAX - from) as usize {
                    None
                } else {
                    status.has_justification(from + offset as u32)
                };
                match found {
                    Some(justification) => {
                        proof {
                            let ghost old_rest = rest;
                            rest = seq![justification@] + rest;
                            assert(spec_select(from as int, before) == spec_select(
                                from as int,
                                statuses@,
                            ).push(justification@));
                            assert(spec_select(from as int, statuses@).push(justification@)
                                + old_rest =~= spec_select(from as int, statuses@) + rest);
                        }
                        reversed.push(justification);
                    },
                    None => {},
                }
            },
        }
    }
    let mut selected: Vec<Justification> = Vec::new();
    proof {
        assert(spec_select(from as int, statuses@) =~= Seq::<JustificationView>::empty());
        assert(spec_select(from as int, all) =~= rest);
    }
    let ghost total = reversed@;
    while reversed.len() > 0
        invariant
            reversed@.len() <= total.len(),
            reversed@ == total.subrange(0, reversed@.len() as int),
            total.len() == rest.len(),
            forall|i: int|
                0 <= i < rest.len() ==> (#[trigger] total[i])@ == rest[rest.len() - 1 - i],
            selected@.len() + reversed@.len() == total.len(),
            forall|i: int| 0 <= i < selected@.len() ==> (#[trigger] selected@[i])@ == rest[i],
        decreases reversed@.len(),
    {
        let ghost before = reversed@;
        match reversed.pop() {
            None => {},
            Some(justification) => {
                proof {
                    assert(reversed@ =~= total.subrange(0, reversed@.len() as int));
                    assert(justification == total[before.len() - 1]);
                }
                selected.push(justification);
            },
        }
    }
    proof {
        assert(views_of(selected@) =~= rest);
    }
    selected
}

} // verus!
