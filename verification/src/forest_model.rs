//! The forest as a mathematical object: what is known of each block above the
//! finalized frontier, and how that knowledge changes.

use vstd::prelude::*;
use crate::block::{BlockId, HeaderView, PeerId};
use crate::data::BranchKnowledge;
use crate::justification::JustificationView;

verus! {

/// How far above the finalized frontier the forest reaches.
pub const MAX_DEPTH: u32 = 1800;

/// What can go wrong when the forest is told something.
#[derive(Clone, Copy, Debug, PartialEq, Eq, Structural)]
pub enum ForestError {
    /// The parent of an imported block is neither the finalized frontier nor known.
    IncorrectParentState,
    /// Another block of the same height already holds a justification.
    IncorrectVertexState,
    /// The parent of an imported block has not been imported itself.
    ParentNotImported,
    /// The block lies too far above the finalized frontier.
    TooNew,
}

/// What the forest knows of one block.
pub struct VertexView {
    /// The parent, once the header is known.
    pub parent: Option<BlockId>,
    /// Whether the block has been imported.
    pub imported: bool,
    /// Whether somebody asked for the block by name.
    pub required: bool,
    /// The justification, once one has arrived.
    pub justification: Option<JustificationView>,
    /// The peers that claim to hold the block or a descendant of it.
    pub know_most: Set<PeerId>,
}

impl VertexView {
    /// A block of which only its identifier is known.
    pub open spec fn empty() -> VertexView {
        VertexView {
            parent: None,
            imported: false,
            required: false,
            justification: None,
            know_most: Set::empty(),
        }
    }

    /// The same knowledge, with `holder` among the peers that hold the block.
    pub open spec fn with_holder(self, holder: Option<PeerId>) -> VertexView {
        match holder {
            Some(peer) => VertexView { know_most: self.know_most.insert(peer), ..self },
            None => self,
        }
    }

    /// Whether the node still has to fetch the block: it is asked for or
    /// justified, and not imported.
    pub open spec fn wanted(self) -> bool {
        !self.imported && (self.required || self.justification is Some)
    }

    /// Whether the block can be finalized: it is imported and justified.
    pub open spec fn ready(self) -> bool {
        self.imported && self.justification is Some
    }

    /// How far the block has come: 0 for an identifier alone, 1 with its
    /// header, 2 once imported.
    pub open spec fn stage(self) -> nat {
        if self.imported {
            2
        } else if self.parent is Some {
            1
        } else {
            0
        }
    }
}

/// How urgently a block is to be requested, with what a request needs.
pub enum InterestView {
    /// The block is not to be requested.
    Uninterested,
    /// The block is to be requested.
    Required { know_most: Set<PeerId>, branch_knowledge: BranchKnowledge },
    /// The block is to be requested, and no higher one is.
    TopRequired { know_most: Set<PeerId>, branch_knowledge: BranchKnowledge },
    /// The block is to be requested, and it is the highest justified one.
    HighestJustified { know_most: Set<PeerId>, branch_knowledge: BranchKnowledge },
}

/// The forest: the finalized frontier, the highest block known to be
/// justified, and what is known of the blocks above the frontier.
pub struct ForestView {
    pub root: BlockId,
    pub highest_justified: BlockId,
    pub vertices: Map<BlockId, VertexView>,
}

impl ForestView {
    /// The forest of a node that knows its finalized frontier and nothing else.
    pub open spec fn fresh(root: BlockId) -> ForestView {
        ForestView { root, highest_justified: root, vertices: Map::empty() }
    }

    /// Whether the forest holds anything on `id`.
    pub open spec fn contains(self, id: BlockId) -> bool {
        self.vertices.dom().contains(id)
    }

    /// Whether `id` lies too far above the frontier to be tracked.
    pub open spec fn too_new(self, id: BlockId) -> bool {
        id.number > self.root.number + MAX_DEPTH
    }

    /// Whether the forest tracks blocks of the height of `id`.
    pub open spec fn candidate(self, id: BlockId) -> bool {
        self.root.number < id.number <= self.root.number + MAX_DEPTH
    }

    /// What is known of `id`; of a block never mentioned, nothing.
    pub open spec fn vertex(self, id: BlockId) -> VertexView {
        if self.contains(id) {
            self.vertices[id]
        } else {
            VertexView::empty()
        }
    }

    /// Whether the forest holds a justification for `id`.
    pub open spec fn justified(self, id: BlockId) -> bool {
        self.contains(id) && self.vertices[id].justification is Some
    }

    /// Whether `id` can be finalized: it is imported and justified.
    pub open spec fn ready(self, id: BlockId) -> bool {
        self.contains(id) && self.vertices[id].ready()
    }

    /// Whether the node still has to fetch `id`.
    pub open spec fn wanted(self, id: BlockId) -> bool {
        self.contains(id) && self.vertices[id].wanted()
    }

    /// Whether some block of height `number` holds a justification.
    pub open spec fn justified_height(self, number: u32) -> bool {
        exists|id: BlockId| #[trigger] self.justified(id) && id.number == number
    }

    /// The forest with `vertex` as what is known of `id`.
    pub open spec fn with_vertex(self, id: BlockId, vertex: VertexView) -> ForestView {
        ForestView { vertices: self.vertices.insert(id, vertex), ..self }
    }

    /// What holds of every forest that the operations below can reach.
    pub open spec fn wf(self) -> bool {
        &&& self.vertices.dom().finite()
        &&& forall|id: BlockId| #[trigger] self.contains(id) ==> self.candidate(id)
        &&& forall|id: BlockId| #[trigger]
            self.contains(id) ==> match self.vertices[id].parent {
                Some(parent) => parent.number + 1 == id.number,
                None => !self.vertices[id].imported && self.vertices[id].justification is None,
            }
        &&& forall|id: BlockId| #[trigger]
            self.justified(id) ==> self.vertices[id].justification->0.id() == id
                && id.number <= self.highest_justified.number
        &&& forall|a: BlockId, b: BlockId|
            #![trigger self.justified(a), self.justified(b)]
            self.justified(a) && self.justified(b) && a.number == b.number ==> a == b
        &&& (self.highest_justified == self.root || self.justified(self.highest_justified))
    }

    /// The forest after a peer or the user named the block `id`.
    pub open spec fn update_block_identifier(
        self,
        id: BlockId,
        holder: Option<PeerId>,
        required: bool,
    ) -> (ForestView, Result<bool, ForestError>) {
        if self.too_new(id) {
            (self, Err(ForestError::TooNew))
        } else if !self.candidate(id) {
            (self, Ok(false))
        } else {
            let before = self.vertex(id);
            let after = VertexView {
                required: before.required || required,
                ..before.with_holder(holder)
            };
            (self.with_vertex(id, after), Ok(required && !before.required && !before.imported))
        }
    }

    /// The forest after the header of a block became known.
    pub open spec fn update_header(
        self,
        header: HeaderView,
        holder: Option<PeerId>,
        required: bool,
    ) -> (ForestView, Result<bool, ForestError>) {
        let id = header.spec_id();
        if self.too_new(id) {
            (self, Err(ForestError::TooNew))
        } else if !self.candidate(id) {
            (self, Ok(false))
        } else {
            let before = self.vertex(id);
            let after = VertexView {
                parent: header.spec_parent_id(),
                required: before.required || required,
                ..before.with_holder(holder)
            };
            (self.with_vertex(id, after), Ok(required && !before.required && !before.imported))
        }
    }

    /// The forest after the node imported the block of `header`.
    pub open spec fn update_body(self, header: HeaderView) -> (
        ForestView,
        Result<(), ForestError>,
    ) {
        let id = header.spec_id();
        if self.too_new(id) {
            (self, Err(ForestError::TooNew))
        } else if !self.candidate(id) {
            (self, Ok(()))
        } else {
            let parent = header.spec_parent_id()->0;
            if parent == self.root || (self.contains(parent) && self.vertices[parent].imported) {
                let after = VertexView {
                    parent: Some(parent),
                    imported: true,
                    ..self.vertex(id)
                };
                (self.with_vertex(id, after), Ok(()))
            } else if self.contains(parent) {
                (self, Err(ForestError::ParentNotImported))
            } else {
                (self, Err(ForestError::IncorrectParentState))
            }
        }
    }

    /// The forest after a verified justification arrived, and whether the
    /// justified block is higher than every block known to be justified before.
    pub open spec fn update_justification(
        self,
        justification: JustificationView,
        holder: Option<PeerId>,
    ) -> (ForestView, Result<bool, ForestError>) {
        let id = justification.id();
        if self.too_new(id) {
            (self, Err(ForestError::TooNew))
        } else if !self.candidate(id) {
            (self, Ok(false))
        } else if self.justified(id) {
            (self.with_vertex(id, self.vertices[id].with_holder(holder)), Ok(false))
        } else if self.justified_height(id.number) {
            (self, Err(ForestError::IncorrectVertexState))
        } else {
            let after = VertexView {
                parent: justification.header.spec_parent_id(),
                justification: Some(justification),
                ..self.vertex(id).with_holder(holder)
            };
            let higher = id.number > self.highest_justified.number;
            (
                ForestView {
                    highest_justified: if higher {
                        id
                    } else {
                        self.highest_justified
                    },
                    ..self.with_vertex(id, after)
                },
                Ok(higher),
            )
        }
    }

    /// Whether some block of height `number` can be finalized.
    pub open spec fn ready_height(self, number: u32) -> bool {
        exists|id: BlockId| #[trigger] self.ready(id) && id.number == number
    }

    /// The block of height `number` that can be finalized.
    pub open spec fn ready_at(self, number: u32) -> BlockId {
        choose|id: BlockId| #[trigger] self.ready(id) && id.number == number
    }

    /// The forest with `id` as its finalized frontier: what lies at or below
    /// the height of `id` is forgotten.
    pub open spec fn rooted_at(self, id: BlockId) -> ForestView {
        ForestView {
            root: id,
            highest_justified: if self.highest_justified.number > id.number {
                self.highest_justified
            } else {
                id
            },
            vertices: Map::new(
                |other: BlockId| self.contains(other) && other.number > id.number,
                |other: BlockId| self.vertices[other],
            ),
        }
    }

    /// The forest after the attempt to finalize a block of height `number`,
    /// and the justification of the block that became final, if one did.
    pub open spec fn try_finalize(self, number: u32) -> (ForestView, Option<JustificationView>) {
        if self.ready_height(number) {
            let id = self.ready_at(number);
            (self.rooted_at(id), self.vertices[id].justification)
        } else {
            (self, None)
        }
    }

    /// What a request for `id` tells the responder about the requester's
    /// branch: the highest imported ancestor, or else the lowest block of the
    /// branch whose header is known.
    pub open spec fn branch_knowledge(self, id: BlockId) -> BranchKnowledge
        decreases id.number,
    {
        let vertex = self.vertex(id);
        if vertex.imported {
            BranchKnowledge::TopImported(id)
        } else {
            match vertex.parent {
                None => BranchKnowledge::LowestId(id),
                Some(parent) => {
                    if parent == self.root {
                        BranchKnowledge::TopImported(parent)
                    } else if self.contains(parent) && parent.number < id.number {
                        self.branch_knowledge(parent)
                    } else {
                        BranchKnowledge::LowestId(id)
                    }
                },
            }
        }
    }

    /// Whether no block above the height of `id` is still to be fetched.
    pub open spec fn top_wanted(self, id: BlockId) -> bool {
        forall|other: BlockId| #[trigger] self.wanted(other) ==> other.number <= id.number
    }

    /// The interest that the node has in `id`.
    pub open spec fn state(self, id: BlockId) -> InterestView {
        if !self.wanted(id) {
            InterestView::Uninterested
        } else {
            let know_most = self.vertices[id].know_most;
            let branch_knowledge = self.branch_knowledge(id);
            if id == self.highest_justified {
                InterestView::HighestJustified { know_most, branch_knowledge }
            } else if self.top_wanted(id) {
                InterestView::TopRequired { know_most, branch_knowledge }
            } else {
                InterestView::Required { know_most, branch_knowledge }
            }
        }
    }
}

/// A fresh forest is well-formed.
pub proof fn lemma_fresh_wf(root: BlockId)
    ensures
        ForestView::fresh(root).wf(),
{
}

/// Replacing what is known of a tracked height by knowledge that is sound in
/// itself and holds the same justification keeps the forest well-formed.
pub proof fn lemma_with_vertex_wf(forest: ForestView, id: BlockId, vertex: VertexView)
    requires
        forest.wf(),
        forest.candidate(id),
        vertex.justification == forest.vertex(id).justification,
        match vertex.parent {
            Some(parent) => parent.number + 1 == id.number,
            None => !vertex.imported && vertex.justification is None,
        },
    ensures
        forest.with_vertex(id, vertex).wf(),
{
    let after = forest.with_vertex(id, vertex);
    assert forall|other: BlockId| #[trigger] after.contains(other) implies other == id
        || forest.contains(other) by {}
    assert forall|other: BlockId| #[trigger] after.justified(other) implies forest.justified(other)
        && after.vertices[other].justification == forest.vertices[other].justification by {}
    assert(forest.highest_justified != forest.root ==> forest.justified(forest.highest_justified));
    assert(forest.highest_justified != forest.root ==> after.justified(forest.highest_justified));
}

/// Naming a block keeps the forest well-formed and its frontier in place.
pub proof fn lemma_update_block_identifier_wf(
    forest: ForestView,
    id: BlockId,
    holder: Option<PeerId>,
    required: bool,
)
    requires
        forest.wf(),
    ensures
        forest.update_block_identifier(id, holder, required).0.wf(),
        forest.update_block_identifier(id, holder, required).0.root == forest.root,
{
    if forest.candidate(id) {
        let before = forest.vertex(id);
        let after = VertexView {
            required: before.required || required,
            ..before.with_holder(holder)
        };
        lemma_with_vertex_wf(forest, id, after);
    }
}

/// Learning a header keeps the forest well-formed and its frontier in place.
pub proof fn lemma_update_header_wf(
    forest: ForestView,
    header: HeaderView,
    holder: Option<PeerId>,
    required: bool,
)
    requires
        forest.wf(),
    ensures
        forest.update_header(header, holder, required).0.wf(),
        forest.update_header(header, holder, required).0.root == forest.root,
{
    let id = header.spec_id();
    if forest.candidate(id) {
        let before = forest.vertex(id);
        let after = VertexView {
            parent: header.spec_parent_id(),
            required: before.required || required,
            ..before.with_holder(holder)
        };
        lemma_with_vertex_wf(forest, id, after);
    }
}

/// Importing a block keeps the forest well-formed and its frontier in place.
pub proof fn lemma_update_body_wf(forest: ForestView, header: HeaderView)
    requires
        forest.wf(),
    ensures
        forest.update_body(header).0.wf(),
        forest.update_body(header).0.root == forest.root,
{
    let id = header.spec_id();
    if forest.candidate(id) {
        let parent = header.spec_parent_id()->0;
        if parent == forest.root || (forest.contains(parent) && forest.vertices[parent].imported) {
            let after = VertexView { parent: Some(parent), imported: true, ..forest.vertex(id) };
            lemma_with_vertex_wf(forest, id, after);
        }
    }
}

/// Taking in a justification keeps the forest well-formed and its frontier in place.
pub proof fn lemma_update_justification_wf(
    forest: ForestView,
    justification: JustificationView,
    holder: Option<PeerId>,
)
    requires
        forest.wf(),
    ensures
        forest.update_justification(justification, holder).0.wf(),
        forest.update_justification(justification, holder).0.root == forest.root,
{
    let after = forest.update_justification(justification, holder).0;
    let id = justification.id();
    if forest.candidate(id) {
        if forest.justified(id) {
            lemma_with_vertex_wf(forest, id, forest.vertices[id].with_holder(holder));
        } else if !forest.justified_height(id.number) {
            assert(forest.highest_justified != forest.root ==> forest.justified(
                forest.highest_justified,
            ));
            assert forall|other: BlockId| #[trigger] after.contains(other) implies other == id
                || forest.contains(other) by {}
            assert forall|other: BlockId| #[trigger] after.justified(other) implies other == id
                || (forest.justified(other) && after.vertices[other].justification
                == forest.vertices[other].justification) by {}
            assert forall|a: BlockId, b: BlockId|
                #![trigger after.justified(a), after.justified(b)]
                after.justified(a) && after.justified(b) && a.number == b.number implies a
                == b by {
                if a != id {
                    assert(forest.justified(a));
                }
                if b != id {
                    assert(forest.justified(b));
                }
            }
            assert(after.justified(id));
            assert(forest.highest_justified != forest.root ==> after.justified(
                forest.highest_justified,
            ));
        }
    }
}

/// Finalizing keeps the forest well-formed and never lowers its frontier.
pub proof fn lemma_try_finalize_wf(forest: ForestView, number: u32)
    requires
        forest.wf(),
    ensures
        forest.try_finalize(number).0.wf(),
        forest.try_finalize(number).0.root.number >= forest.root.number,
        forest.try_finalize(number).1 is Some ==> {
            &&& forest.try_finalize(number).0.root.number == number
            &&& number > forest.root.number
            &&& forest.try_finalize(number).1->0.id() == forest.try_finalize(number).0.root
        },
        forest.try_finalize(number).1 is None ==> forest.try_finalize(number).0 == forest,
{
    if forest.ready_height(number) {
        let id = forest.ready_at(number);
        let after = forest.rooted_at(id);
        assert(forest.ready(id) && id.number == number);
        assert(forest.contains(id));
        assert(forest.justified(id));
        assert(after.vertices.dom().subset_of(forest.vertices.dom()));
        vstd::set_lib::lemma_len_subset(after.vertices.dom(), forest.vertices.dom());
        assert forall|other: BlockId| #[trigger] after.contains(other) implies forest.contains(
            other,
        ) && after.vertices[other] == forest.vertices[other] && other.number > id.number by {}
        assert forall|other: BlockId| #[trigger] after.justified(other) implies forest.justified(
            other,
        ) by {}
        assert(forest.highest_justified != forest.root ==> forest.justified(
            forest.highest_justified,
        ));
        if forest.highest_justified.number > id.number {
            assert(after.justified(forest.highest_justified));
        }
    }
}

/// In a well-formed forest at most one block of a height can be finalized.
pub proof fn lemma_ready_at_is_unique(forest: ForestView, id: BlockId)
    requires
        forest.wf(),
        forest.ready(id),
    ensures
        forest.ready_height(id.number),
        forest.ready_at(id.number) == id,
{
    let chosen = forest.ready_at(id.number);
    assert(forest.ready(chosen) && chosen.number == id.number);
    assert(forest.justified(chosen));
    assert(forest.justified(id));
}

/// A justification that arrives a second time from the same peer changes
/// nothing and is not reported as new.
pub proof fn lemma_update_justification_idempotent(
    forest: ForestView,
    justification: JustificationView,
    holder: Option<PeerId>,
)
    requires
        forest.wf(),
        forest.update_justification(justification, holder).1 is Ok,
    ensures
        ({
            let once = forest.update_justification(justification, holder).0;
            once.update_justification(justification, holder) == (
                once,
                Ok::<bool, ForestError>(false),
            )
        }),
{
    let once = forest.update_justification(justification, holder).0;
    let id = justification.id();
    if forest.candidate(id) {
        assert(once.justified(id));
        let twice = once.with_vertex(id, once.vertices[id].with_holder(holder));
        match holder {
            Some(peer) => {
                assert(once.vertices[id].know_most.contains(peer));
                assert(once.vertices[id].know_most.insert(peer) =~= once.vertices[id].know_most);
            },
            None => {},
        }
        assert(twice.vertices =~= once.vertices);
    }
}

/// The forest takes no interest in a block at or below its finalized
/// frontier, nor in one it has imported.
pub proof fn lemma_no_interest_at_or_below_frontier(forest: ForestView, id: BlockId)
    requires
        forest.wf(),
    ensures
        id.number <= forest.root.number ==> forest.state(id) == InterestView::Uninterested,
        forest.vertex(id).imported ==> forest.state(id) == InterestView::Uninterested,
{
    if id.number <= forest.root.number {
        if forest.contains(id) {
            assert(forest.candidate(id));
        }
    }
}

/// What is known of a block never goes back: as long as the forest tracks the
/// block, a header once known stays known and an import stays an import.
pub proof fn lemma_stage_never_regresses(
    forest: ForestView,
    header: HeaderView,
    justification: JustificationView,
    holder: Option<PeerId>,
    required: bool,
    number: u32,
    id: BlockId,
)
    requires
        forest.wf(),
        forest.contains(id),
    ensures
        forest.update_block_identifier(header.spec_id(), holder, required).0.vertex(id).stage()
            >= forest.vertex(id).stage(),
        forest.update_header(header, holder, required).0.vertex(id).stage() >= forest.vertex(
            id,
        ).stage(),
        forest.update_body(header).0.vertex(id).stage() >= forest.vertex(id).stage(),
        forest.update_justification(justification, holder).0.vertex(id).stage() >= forest.vertex(
            id,
        ).stage(),
        forest.try_finalize(number).0.contains(id) ==> forest.try_finalize(number).0.vertex(
            id,
        ).stage() == forest.vertex(id).stage(),
{
    assert(forest.candidate(id));
    if header.spec_id() == id {
        assert(header.spec_parent_id() is Some);
    }
    if justification.id() == id {
        assert(justification.header.spec_parent_id() is Some);
    }
}

/// The blocks above the frontier that the forest knows to be justified.
pub open spec fn justified_blocks(forest: ForestView) -> Set<BlockId> {
    forest.vertices.dom().filter(|id: BlockId| forest.justified(id))
}

/// The forest is bounded: it holds at most one justified block for each
/// height that it tracks, and so no more justified blocks than it is deep.
pub proof fn lemma_justified_blocks_are_bounded(forest: ForestView)
    requires
        forest.wf(),
    ensures
        justified_blocks(forest).finite(),
        justified_blocks(forest).len() <= MAX_DEPTH,
{
    let blocks = justified_blocks(forest);
    let height = |id: BlockId| id.number as int;
    let heights = blocks.map(height);
    let low = forest.root.number + 1;
    let range = vstd::set_lib::set_int_range(low, low + MAX_DEPTH);
    forest.vertices.dom().lemma_len_filter(|id: BlockId| forest.justified(id));
    assert(vstd::relations::injective_on(height, blocks)) by {
        assert forall|a: BlockId, b: BlockId|
            blocks.contains(a) && blocks.contains(b) && #[trigger] height(a) == #[trigger] height(
                b,
            ) implies a == b by {
            assert(forest.justified(a) && forest.justified(b));
        }
    }
    vstd::set_lib::lemma_map_size(blocks, heights, height);
    vstd::set_lib::lemma_int_range(low, low + MAX_DEPTH);
    assert(heights.subset_of(range)) by {
        assert forall|number: int| heights.contains(number) implies range.contains(number) by {
            let id = choose|id: BlockId| blocks.contains(id) && height(id) == number;
            assert(forest.contains(id));
            assert(forest.candidate(id));
        }
    }
    vstd::set_lib::lemma_len_subset(heights, range);
}

} // verus!
