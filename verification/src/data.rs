//! The messages that synchronising nodes exchange.

use vstd::prelude::*;
use crate::block::BlockId;
use crate::compatibility::{Version, CURRENT_VERSION, LEGACY_VERSION};
use crate::justification::{Justification, JustificationView};

verus! {

/// The contents of a list of justifications, one by one.
pub open spec fn views_of(justifications: Seq<Justification>) -> Seq<JustificationView> {
    Seq::new(justifications.len(), |i: int| justifications[i]@)
}

/// How far back along the ancestors of a requested block the requester's own
/// knowledge reaches.
#[derive(Clone, Copy, Debug, PartialEq, Eq, Structural)]
pub enum BranchKnowledge {
    /// The lowest block of the branch whose header the requester holds; it has
    /// imported none of the branch.
    LowestId(BlockId),
    /// The highest ancestor that the requester has imported.
    TopImported(BlockId),
}

impl BranchKnowledge {
    /// The block that the knowledge names.
    pub open spec fn spec_id(self) -> BlockId {
        match self {
            BranchKnowledge::LowestId(id) => id,
            BranchKnowledge::TopImported(id) => id,
        }
    }

    /// The height up to which the requester needs nothing: that of its highest
    /// imported ancestor, or the height just below the lowest header it holds.
    pub open spec fn spec_covered(self) -> u32 {
        match self {
            BranchKnowledge::LowestId(id) => if id.number == 0 {
                0u32
            } else {
                (id.number - 1) as u32
            },
            BranchKnowledge::TopImported(id) => id.number,
        }
    }

    /// The block that the knowledge names.
    pub fn id(&self) -> (id: BlockId)
        ensures
            id == self.spec_id(),
    {
        match self {
            BranchKnowledge::LowestId(id) => *id,
            BranchKnowledge::TopImported(id) => *id,
        }
    }

    /// The height up to which the requester needs nothing.
    pub fn covered(&self) -> (number: u32)
        ensures
            number == self.spec_covered(),
    {
        match self {
            BranchKnowledge::LowestId(id) => id.number.saturating_sub(1),
            BranchKnowledge::TopImported(id) => id.number,
        }
    }
}

/// A summary of what a node knows of the chain: its top finalized block, with
/// the justification that proves it.
#[derive(Debug, PartialEq, Eq)]
pub struct State {
    top_justification: Justification,
}

impl View for State {
    type V = JustificationView;

    closed spec fn view(&self) -> JustificationView {
        self.top_justification@
    }
}

impl Clone for State {
    fn clone(&self) -> (copy: Self)
        ensures
            copy@ == self@,
    {
        State { top_justification: self.top_justification.clone() }
    }
}

impl State {
    pub fn new(top_justification: Justification) -> (state: Self)
        ensures
            state@ == top_justification@,
    {
        State { top_justification }
    }

    pub fn top_justification(&self) -> (justification: Justification)
        ensures
            justification@ == self@,
    {
        self.top_justification.clone()
    }
}

/// The contents of a [`Request`].
pub struct RequestView {
    pub target_id: BlockId,
    pub branch_knowledge: BranchKnowledge,
    pub state: JustificationView,
}

/// A request for a block and what leads up to it, with the requester's state.
#[derive(Debug, PartialEq, Eq)]
pub struct Request {
    target_id: BlockId,
    branch_knowledge: BranchKnowledge,
    state: State,
}

impl View for Request {
    type V = RequestView;

    closed spec fn view(&self) -> RequestView {
        RequestView {
            target_id: self.target_id,
            branch_knowledge: self.branch_knowledge,
            state: self.state@,
        }
    }
}

impl Clone for Request {
    fn clone(&self) -> (copy: Self)
        ensures
            copy@ == self@,
    {
        Request {
            target_id: self.target_id,
            branch_knowledge: self.branch_knowledge,
            state: self.state.clone(),
        }
    }
}

impl Request {
    pub fn new(target_id: BlockId, branch_knowledge: BranchKnowledge, state: State) -> (request:
        Self)
        ensures
            request@ == (RequestView { target_id, branch_knowledge, state: state@ }),
    {
        Request { target_id, branch_knowledge, state }
    }

    pub fn state(&self) -> (state: &State)
        ensures
            state@ == self@.state,
    {
        &self.state
    }

    pub fn target_id(&self) -> (id: BlockId)
        ensures
            id == self@.target_id,
    {
        self.target_id
    }

    pub fn branch_knowledge(&self) -> (knowledge: BranchKnowledge)
        ensures
            knowledge == self@.branch_knowledge,
    {
        self.branch_knowledge
    }
}

/// The contents of a [`NetworkData`].
pub enum NetworkDataView {
    StateBroadcast(JustificationView),
    StateBroadcastResponse(JustificationView, Option<JustificationView>),
    Request(RequestView),
    RequestResponse(JustificationView, Seq<JustificationView>),
}

/// Data to be sent over the network.
#[derive(Debug, PartialEq, Eq)]
pub enum NetworkData {
    /// A periodic state broadcast, so that neighbouring nodes can request what
    /// they are missing, send what we are missing, and sometimes just use the
    /// information to update their own state.
    StateBroadcast(State),
    /// Response to a state broadcast. Contains at most two justifications that
    /// the peer will understand.
    StateBroadcastResponse(Justification, Option<Justification>),
    /// An explicit request for data, potentially a lot of it.
    Request(Request),
    /// Response to the request for data: the responder's state and the
    /// justifications that bridge the gap.
    RequestResponse(State, Vec<Justification>),
}

impl View for NetworkData {
    type V = NetworkDataView;

    open spec fn view(&self) -> NetworkDataView {
        match self {
            NetworkData::StateBroadcast(state) => NetworkDataView::StateBroadcast(state@),
            NetworkData::StateBroadcastResponse(first, second) => {
                NetworkDataView::StateBroadcastResponse(
                    first@,
                    match second {
                        Some(justification) => Some(justification@),
                        None => None,
                    },
                )
            },
            NetworkData::Request(request) => NetworkDataView::Request(request@),
            NetworkData::RequestResponse(state, justifications) => {
                NetworkDataView::RequestResponse(state@, views_of(justifications@))
            },
        }
    }
}

/// A message together with the protocol version it was written in.
#[derive(Debug, PartialEq, Eq)]
pub enum VersionedNetworkData {
    /// A message of a version that this node does not read, with its bytes.
    Other(Version, Vec<u8>),
    /// A message of the legacy version.
    V1(NetworkData),
    /// A message of the current version.
    V2(NetworkData),
}

impl VersionedNetworkData {
    /// The version that the message is tagged with.
    pub open spec fn spec_version(&self) -> Version {
        match self {
            VersionedNetworkData::Other(version, _) => *version,
            VersionedNetworkData::V1(_) => LEGACY_VERSION,
            VersionedNetworkData::V2(_) => CURRENT_VERSION,
        }
    }

    /// The message inside, where this node reads the version.
    pub open spec fn spec_data(&self) -> Option<NetworkDataView> {
        match self {
            VersionedNetworkData::Other(_, _) => None,
            VersionedNetworkData::V1(data) => Some(data@),
            VersionedNetworkData::V2(data) => Some(data@),
        }
    }

    /// Tags an outgoing message with the current version.
    pub fn current(data: NetworkData) -> (versioned: Self)
        ensures
            versioned.spec_version() == CURRENT_VERSION,
            versioned.spec_data() == Some(data@),
    {
        VersionedNetworkData::V2(data)
    }

    /// The version that the message is tagged with.
    pub fn version(&self) -> (version: Version)
        ensures
            version == self.spec_version(),
    {
        match self {
            VersionedNetworkData::Other(version, _) => *version,
            VersionedNetworkData::V1(_) => LEGACY_VERSION,
            VersionedNetworkData::V2(_) => CURRENT_VERSION,
        }
    }

    /// The message inside; the version instead, where this node does not read it.
    pub fn into_data(self) -> (data: Result<NetworkData, Version>)
        ensures
            match data {
                Ok(inner) => self.spec_data() == Some(inner@),
                Err(version) => self.spec_data().is_none() && version == self.spec_version(),
            },
    {
        match self {
            VersionedNetworkData::Other(version, _) => Err(version),
            VersionedNetworkData::V1(data) => Ok(data),
            VersionedNetworkData::V2(data) => Ok(data),
        }
    }
}

} // verus!
