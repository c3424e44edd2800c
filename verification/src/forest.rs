//! The forest: what the node knows of the blocks above its finalized frontier.

use vstd::prelude::*;
use crate::block::{BlockId, Header, PeerId};
use crate::data::BranchKnowledge;
use crate::forest_model::{ForestError, ForestView, InterestView, VertexView, MAX_DEPTH};
use crate::justification::Justification;

verus! {

/// How urgently a block is to be requested, with the peers to ask and what to
/// tell them about the branch.
#[derive(Debug, PartialEq, Eq)]
pub enum Interest {
    /// We are not interested in requesting this block.
    Uninterested,
    /// We would like to have this block.
    Required { know_most: Vec<PeerId>, branch_knowledge: BranchKnowledge },
    /// We would like to have this block and it is the highest we would like to have.
    TopRequired { know_most: Vec<PeerId>, branch_knowledge: BranchKnowledge },
    /// We would like to have this block and it is the highest justified one.
    HighestJustified { know_most: Vec<PeerId>, branch_knowledge: BranchKnowledge },
}

impl View for Interest {
    type V = InterestView;

    open spec fn view(&self) -> InterestView {
        match self {
            Interest::Uninterested => InterestView::Uninterested,
            Interest::Required { know_most, branch_knowledge } => InterestView::Required {
                know_most: know_most@.to_set(),
                branch_knowledge: *branch_knowledge,
            },
            Interest::TopRequired { know_most, branch_knowledge } => InterestView::TopRequired {
                know_most: know_most@.to_set(),
                branch_knowledge: *branch_knowledge,
            },
            Interest::HighestJustified {
                know_most,
                branch_knowledge,
            } => InterestView::HighestJustified {
                know_most: know_most@.to_set(),
                branch_knowledge: *branch_knowledge,
            },
        }
    }
}

impl Interest {
    /// Whether no peer is named twice among those to ask.
    pub open spec fn peers_distinct(&self) -> bool {
        match self {
            Interest::Uninterested => true,
            Interest::Required { know_most, .. } => know_most@.no_duplicates(),
            Interest::TopRequired { know_most, .. } => know_most@.no_duplicates(),
            Interest::HighestJustified { know_most, .. } => know_most@.no_duplicates(),
        }
    }
}

/// What the forest holds for one block.
#[derive(Debug)]
struct Vertex {
    id: BlockId,
    parent: Option<BlockId>,
    imported: bool,
    required: bool,
    justification: Option<Justification>,
    know_most: Vec<PeerId>,
}

impl Vertex {
    spec fn view(&self) -> VertexView {
        VertexView {
            parent: self.parent,
            imported: self.imported,
            required: self.required,
            justification: match self.justification {
                Some(justification) => Some(justification@),
                None => None,
            },
            know_most: self.know_most@.to_set(),
        }
    }

    /// No peer is listed twice.
    spec fn wf(&self) -> bool {
        self.know_most@.no_duplicates()
    }

    fn new(id: BlockId) -> (vertex: Vertex)
        ensures
            vertex.id == id,
            vertex.wf(),
            vertex@ == VertexView::empty(),
    {
        let vertex = Vertex {
            id,
            parent: None,
            imported: false,
            required: false,
            justification: None,
            know_most: Vec::new(),
        };
        proof {
            assert(vertex.know_most@.to_set() =~= Set::<PeerId>::empty());
        }
        vertex
    }

    fn add_block_holder(&mut self, holder: Option<PeerId>)
        requires
            old(self).wf(),
        ensures
            final(self).wf(),
            final(self).id == old(self).id,
            final(self)@ == old(self)@.with_holder(holder),
    {
        match holder {
            None => {},
            Some(peer) => {
                let mut i: usize = 0;
                let mut found = false;
                while i < self.know_most.len()
                    invariant
                        *self == *old(self),
                        0 <= i <= self.know_most.len(),
                        found == exists|j: int| 0 <= j < i && self.know_most@[j] == peer,
                    decreases self.know_most.len() - i,
                {
                    if self.know_most[i] == peer {
                        found = true;
                    }
                    i = i + 1;
                }
                if found {
                    proof {
                        assert(self.know_most@.to_set().contains(peer));
                        assert(self.know_most@.to_set().insert(peer) =~= self.know_most@.to_set());
                    }
                } else {
                    let ghost before = self.know_most@;
                    self.know_most.push(peer);
                    proof {
                        assert(self.know_most@ == before.push(peer));
                        assert(before.push(peer).to_set() =~= before.to_set().insert(peer)) by {
                            assert forall|other: PeerId|
                                before.push(peer).to_set().contains(other)
                                    <==> before.to_set().insert(peer).contains(other) by {
                                if before.push(peer).to_set().contains(other) {
                                    let j = choose|j: int|
                                        0 <= j < before.push(peer).len() && before.push(peer)[j]
                                            == other;
                                    if j < before.len() {
                                        assert(before[j] == other);
                                    }
                                }
                                if before.to_set().contains(other) {
                                    let j = choose|j: int|
                                        0 <= j < before.len() && before[j] == other;
                                    assert(before.push(peer)[j] == other);
                                }
                                if other == peer {
                                    assert(before.push(peer)[before.len() as int] == peer);
                                }
                            }
                        }
                    }
                }
            },
        }
    }
}

/// Whether no identifier stands twice among the vertices.
spec fn unique_ids(vertices: Seq<Vertex>) -> bool {
    forall|i: int, j: int| 0 <= i < j < vertices.len() ==> vertices[i].id != vertices[j].id
}

spec fn has_id(vertices: Seq<Vertex>, id: BlockId) -> bool {
    exists|i: int| 0 <= i < vertices.len() && #[trigger] vertices[i].id == id
}

spec fn index_of(vertices: Seq<Vertex>, id: BlockId) -> int {
    choose|i: int| 0 <= i < vertices.len() && #[trigger] vertices[i].id == id
}

/// What the vertices say of each block, by its identifier.
spec fn vertex_map(vertices: Seq<Vertex>) -> Map<BlockId, VertexView> {
    Map::new(|id: BlockId| has_id(vertices, id), |id: BlockId| vertices[index_of(vertices, id)]@)
}

proof fn lemma_map_lookup(vertices: Seq<Vertex>, i: int)
    requires
        unique_ids(vertices),
        0 <= i < vertices.len(),
    ensures
        has_id(vertices, vertices[i].id),
        index_of(vertices, vertices[i].id) == i,
        vertex_map(vertices).dom().contains(vertices[i].id),
        vertex_map(vertices)[vertices[i].id] == vertices[i]@,
{
    assert(vertices[i].id == vertices[i].id);
    let chosen = index_of(vertices, vertices[i].id);
    assert(0 <= chosen < vertices.len() && vertices[chosen].id == vertices[i].id);
    if chosen < i {
        assert(vertices[chosen].id != vertices[i].id);
    } else if i < chosen {
        assert(vertices[i].id != vertices[chosen].id);
    }
}

proof fn lemma_map_push(vertices: Seq<Vertex>, vertex: Vertex)
    requires
        unique_ids(vertices),
        !has_id(vertices, vertex.id),
    ensures
        unique_ids(vertices.push(vertex)),
        vertex_map(vertices.push(vertex)) == vertex_map(vertices).insert(vertex.id, vertex@),
{
    let after = vertices.push(vertex);
    assert forall|i: int, j: int| 0 <= i < j < after.len() implies after[i].id != after[j].id by {
        if j == vertices.len() {
            assert(after[i] == vertices[i]);
            if vertices[i].id == vertex.id {
                assert(has_id(vertices, vertex.id));
            }
        } else {
            assert(after[i] == vertices[i]);
            assert(after[j] == vertices[j]);
        }
    }
    assert forall|id: BlockId| has_id(after, id) <==> (id == vertex.id || has_id(vertices, id)) by {
        if has_id(after, id) {
            let i = index_of(after, id);
            if i < vertices.len() {
                assert(vertices[i].id == id);
            }
        }
        if has_id(vertices, id) {
            let i = index_of(vertices, id);
            assert(after[i].id == id);
        }
        if id == vertex.id {
            assert(after[vertices.len() as int].id == id);
        }
    }
    assert forall|id: BlockId| has_id(after, id) implies #[trigger] vertex_map(after)[id]
        == vertex_map(vertices).insert(vertex.id, vertex@)[id] by {
        if id == vertex.id {
            lemma_map_lookup(after, vertices.len() as int);
        } else {
            let i = index_of(vertices, id);
            lemma_map_lookup(vertices, i);
            assert(after[i] == vertices[i]);
            lemma_map_lookup(after, i);
        }
    }
    assert(vertex_map(after) =~= vertex_map(vertices).insert(vertex.id, vertex@));
}

proof fn lemma_map_update(vertices: Seq<Vertex>, i: int, vertex: Vertex)
    requires
        unique_ids(vertices),
        0 <= i < vertices.len(),
        vertex.id == vertices[i].id,
    ensures
        unique_ids(vertices.update(i, vertex)),
        vertex_map(vertices.update(i, vertex)) == vertex_map(vertices).insert(vertex.id, vertex@),
{
    let after = vertices.update(i, vertex);
    assert forall|a: int, b: int| 0 <= a < b < after.len() implies after[a].id != after[b].id by {
        assert(after[a].id == vertices[a].id);
        assert(after[b].id == vertices[b].id);
    }
    assert forall|id: BlockId| has_id(after, id) <==> has_id(vertices, id) by {
        if has_id(after, id) {
            let k = index_of(after, id);
            assert(vertices[k].id == id);
        }
        if has_id(vertices, id) {
            let k = index_of(vertices, id);
            assert(after[k].id == id);
        }
    }
    lemma_map_lookup(vertices, i);
    assert forall|id: BlockId| has_id(after, id) implies #[trigger] vertex_map(after)[id]
        == vertex_map(vertices).insert(vertex.id, vertex@)[id] by {
        let k = index_of(vertices, id);
        lemma_map_lookup(vertices, k);
        lemma_map_lookup(after, k);
    }
    assert(vertex_map(after) =~= vertex_map(vertices).insert(vertex.id, vertex@));
}

proof fn lemma_map_finite(vertices: Seq<Vertex>)
    ensures
        vertex_map(vertices).dom().finite(),
    decreases vertices.len(),
{
    if vertices.len() == 0 {
        assert(vertex_map(vertices).dom() =~= Set::<BlockId>::empty());
    } else {
        let front = vertices.drop_last();
        lemma_map_finite(front);
        assert(vertex_map(vertices).dom() =~= vertex_map(front).dom().insert(vertices.last().id))
            by {
            assert forall|id: BlockId| has_id(vertices, id) <==> (id == vertices.last().id
                || has_id(front, id)) by {
                if has_id(vertices, id) {
                    let i = index_of(vertices, id);
                    if i < front.len() {
                        assert(front[i].id == id);
                    }
                }
                if has_id(front, id) {
                    let i = index_of(front, id);
                    assert(vertices[i].id == id);
                }
                if id == vertices.last().id {
                    assert(vertices[vertices.len() - 1].id == id);
                }
            }
        }
    }
}

/// The knowledge model of synchronisation.
#[derive(Debug)]
pub struct Forest {
    root: BlockId,
    highest_justified: BlockId,
    vertices: Vec<Vertex>,
}

impl View for Forest {
    type V = ForestView;

    closed spec fn view(&self) -> ForestView {
        ForestView {
            root: self.root,
            highest_justified: self.highest_justified,
            vertices: vertex_map(self.vertices@),
        }
    }
}

impl Forest {
    /// What holds of the way the forest is stored.
    pub closed spec fn inv(&self) -> bool {
        &&& unique_ids(self.vertices@)
        &&& forall|i: int| 0 <= i < self.vertices@.len() ==> (#[trigger] self.vertices@[i]).wf()
    }

    /// The forest is stored soundly and is one that its operations can reach.
    pub open spec fn wf(&self) -> bool {
        self.inv() && self@.wf()
    }

    /// The forest of a node whose finalized frontier is `root`.
    pub fn new(root: BlockId) -> (forest: Self)
        ensures
            forest.wf(),
            forest@ == ForestView::fresh(root),
    {
        let forest = Forest { root, highest_justified: root, vertices: Vec::new() };
        proof {
            assert(vertex_map(forest.vertices@) =~= Map::<BlockId, VertexView>::empty());
        }
        forest
    }

    /// The finalized frontier.
    pub fn root(&self) -> (root: BlockId)
        ensures
            root == self@.root,
    {
        self.root
    }

    /// The highest block known to be justified.
    pub fn highest_justified(&self) -> (id: BlockId)
        ensures
            id == self@.highest_justified,
    {
        self.highest_justified
    }

    /// The number of blocks that the forest tracks.
    pub fn len(&self) -> (len: usize)
        requires
            self.wf(),
        ensures
            len == self@.vertices.dom().len(),
    {
        proof {
            lemma_map_len(self.vertices@);
        }
        self.vertices.len()
    }

    fn find(&self, id: BlockId) -> (found: Option<usize>)
        requires
            self.inv(),
        ensures
            match found {
                Some(i) => i < self.vertices@.len() && self.vertices@[i as int].id == id
                    && self@.contains(id) && self@.vertices[id] == self.vertices@[i as int]@,
                None => !self@.contains(id) && !has_id(self.vertices@, id),
            },
    {
        let mut i: usize = 0;
        while i < self.vertices.len()
            invariant
                self.inv(),
                0 <= i <= self.vertices.len(),
                forall|j: int| 0 <= j < i ==> self.vertices@[j].id != id,
            decreases self.vertices.len() - i,
        {
            if self.vertices[i].id == id {
                proof {
                    lemma_map_lookup(self.vertices@, i as int);
                }
                return Some(i);
            }
            i = i + 1;
        }
        None
    }

    /// Whether `id` lies too far above the frontier to be tracked.
    fn too_new(&self, id: BlockId) -> (too_new: bool)
        ensures
            too_new == self@.too_new(id),
    {
        id.number as u64 > self.root.number as u64 + MAX_DEPTH as u64
    }

    fn candidate(&self, id: BlockId) -> (candidate: bool)
        ensures
            candidate == self@.candidate(id),
    {
        self.root.number < id.number && id.number as u64 <= self.root.number as u64
            + MAX_DEPTH as u64
    }

    /// The place of `id` among the vertices, where it is put if it is new.
    fn find_or_insert(&mut self, id: BlockId) -> (i: usize)
        requires
            old(self).inv(),
        ensures
            final(self).inv(),
            final(self).root == old(self).root,
            final(self).highest_justified == old(self).highest_justified,
            i < final(self).vertices@.len(),
            final(self).vertices@[i as int].id == id,
            final(self).vertices@[i as int]@ == old(self)@.vertex(id),
            final(self)@.vertices == old(self)@.vertices.insert(id, old(self)@.vertex(id)),
    {
        match self.find(id) {
            Some(i) => {
                proof {
                    assert(self@.vertices.insert(id, self@.vertex(id)) =~= self@.vertices);
                }
                i
            },
            None => {
                let vertex = Vertex::new(id);
                proof {
                    lemma_map_push(self.vertices@, vertex);
                }
                self.vertices.push(vertex);
                self.vertices.len() - 1
            },
        }
    }

    /// Records that a peer or the user named the block `id`. Says whether the
    /// block was asked for just now for the first time.
    pub fn update_block_identifier(
        &mut self,
        id: BlockId,
        holder: Option<PeerId>,
        required: bool,
    ) -> (result: Result<bool, ForestError>)
        requires
            old(self).wf(),
        ensures
            final(self).wf(),
            (final(self)@, result) == old(self)@.update_block_identifier(id, holder, required),
    {
        proof {
            crate::forest_model::lemma_update_block_identifier_wf(self@, id, holder, required);
        }
        if self.too_new(id) {
            return Err(ForestError::TooNew);
        }
        if !self.candidate(id) {
            return Ok(false);
        }
        let i = self.find_or_insert(id);
        let ghost mid = self.vertices@;
        let newly = required && !self.vertices[i].required && !self.vertices[i].imported;
        self.vertices[i].add_block_holder(holder);
        if required {
            self.vertices[i].required = true;
        }
        proof {
            assert(self.vertices@ =~= mid.update(i as int, self.vertices@[i as int]));
            lemma_map_update(mid, i as int, self.vertices@[i as int]);
            assert(self@.vertices =~= old(self)@.update_block_identifier(
                id,
                holder,
                required,
            ).0.vertices);
        }
        Ok(newly)
    }

    /// Records the header of a block. Says whether the block was asked for
    /// just now for the first time.
    pub fn update_header(
        &mut self,
        header: &Header,
        holder: Option<PeerId>,
        required: bool,
    ) -> (result: Result<bool, ForestError>)
        requires
            old(self).wf(),
        ensures
            final(self).wf(),
            (final(self)@, result) == old(self)@.update_header(header@, holder, required),
    {
        proof {
            crate::forest_model::lemma_update_header_wf(self@, header@, holder, required);
        }
        let id = header.id();
        if self.too_new(id) {
            return Err(ForestError::TooNew);
        }
        if !self.candidate(id) {
            return Ok(false);
        }
        let i = self.find_or_insert(id);
        let ghost mid = self.vertices@;
        let newly = required && !self.vertices[i].required && !self.vertices[i].imported;
        self.vertices[i].add_block_holder(holder);
        self.vertices[i].parent = header.parent_id();
        if required {
            self.vertices[i].required = true;
        }
        proof {
            assert(self.vertices@ =~= mid.update(i as int, self.vertices@[i as int]));
            lemma_map_update(mid, i as int, self.vertices@[i as int]);
            assert(self@.vertices =~= old(self)@.update_header(
                header@,
                holder,
                required,
            ).0.vertices);
        }
        Ok(newly)
    }

    /// Records that the node imported the block of `header`. The parent must
    /// be the finalized frontier or an imported block.
    pub fn update_body(&mut self, header: &Header) -> (result: Result<(), ForestError>)
        requires
            old(self).wf(),
        ensures
            final(self).wf(),
            (final(self)@, result) == old(self)@.update_body(header@),
    {
        proof {
            crate::forest_model::lemma_update_body_wf(self@, header@);
        }
        let id = header.id();
        if self.too_new(id) {
            return Err(ForestError::TooNew);
        }
        if !self.candidate(id) {
            return Ok(());
        }
        let parent = match header.parent_id() {
            Some(parent) => parent,
            None => {
                return Ok(());
            },
        };
        if parent != self.root {
            match self.find(parent) {
                None => {
                    return Err(ForestError::IncorrectParentState);
                },
                Some(p) => {
                    if !self.vertices[p].imported {
                        return Err(ForestError::ParentNotImported);
                    }
                },
            }
        }
        let i = self.find_or_insert(id);
        let ghost mid = self.vertices@;
        self.vertices[i].parent = Some(parent);
        self.vertices[i].imported = true;
        proof {
            assert(self.vertices@ =~= mid.update(i as int, self.vertices@[i as int]));
            lemma_map_update(mid, i as int, self.vertices@[i as int]);
            assert(self@.vertices =~= old(self)@.update_body(header@).0.vertices);
        }
        Ok(())
    }

    /// Whether some block of height `number` holds a justification.
    fn justified_height(&self, number: u32) -> (justified: bool)
        requires
            self.inv(),
        ensures
            justified == self@.justified_height(number),
    {
        let mut i: usize = 0;
        while i < self.vertices.len()
            invariant
                self.inv(),
                0 <= i <= self.vertices.len(),
                forall|j: int|
                    0 <= j < i ==> !(self.vertices@[j].id.number == number
                        && self.vertices@[j].justification is Some),
            decreases self.vertices.len() - i,
        {
            if self.vertices[i].id.number == number && self.vertices[i].justification.is_some() {
                proof {
                    lemma_map_lookup(self.vertices@, i as int);
                    assert(self@.justified(self.vertices@[i as int].id));
                }
                return true;
            }
            i = i + 1;
        }
        proof {
            assert forall|id: BlockId| !(#[trigger] self@.justified(id) && id.number
                == number) by {
                if self@.justified(id) && id.number == number {
                    let j = index_of(self.vertices@, id);
                    lemma_map_lookup(self.vertices@, j);
                }
            }
        }
        false
    }

    /// Takes in a verified justification. Says whether the justified block is
    /// higher than every block that was known to be justified.
    pub fn update_justification(
        &mut self,
        justification: Justification,
        holder: Option<PeerId>,
    ) -> (result: Result<bool, ForestError>)
        requires
            old(self).wf(),
        ensures
            final(self).wf(),
            (final(self)@, result) == old(self)@.update_justification(justification@, holder),
    {
        proof {
            crate::forest_model::lemma_update_justification_wf(self@, justification@, holder);
        }
        let id = justification.id();
        if self.too_new(id) {
            return Err(ForestError::TooNew);
        }
        if !self.candidate(id) {
            return Ok(false);
        }
        match self.find(id) {
            Some(i) => {
                if self.vertices[i].justification.is_some() {
                    let ghost mid = self.vertices@;
                    self.vertices[i].add_block_holder(holder);
                    proof {
                        assert(self.vertices@ =~= mid.update(i as int, self.vertices@[i as int]));
                        lemma_map_update(mid, i as int, self.vertices@[i as int]);
                    }
                    return Ok(false);
                }
            },
            None => {},
        }
        if self.justified_height(id.number) {
            return Err(ForestError::IncorrectVertexState);
        }
        let i = self.find_or_insert(id);
        let ghost mid = self.vertices@;
        self.vertices[i].add_block_holder(holder);
        self.vertices[i].parent = justification.parent_id();
        self.vertices[i].justification = Some(justification);
        let higher = id.number > self.highest_justified.number;
        if higher {
            self.highest_justified = id;
        }
        proof {
            assert(self.vertices@ =~= mid.update(i as int, self.vertices@[i as int]));
            lemma_map_update(mid, i as int, self.vertices@[i as int]);
            assert(self@.vertices =~= old(self)@.update_justification(
                justification@,
                holder,
            ).0.vertices);
        }
        Ok(higher)
    }

    /// Finalizes the block of height `number` if it is imported and
    /// justified: the block becomes the finalized frontier, everything at or
    /// below its height is forgotten, and its justification is handed out.
    pub fn try_finalize(&mut self, number: u32) -> (finalized: Option<Justification>)
        requires
            old(self).wf(),
        ensures
            final(self).wf(),
            (final(self)@, view_of(finalized)) == old(self)@.try_finalize(number),
    {
        proof {
            crate::forest_model::lemma_try_finalize_wf(self@, number);
        }
        let mut i: usize = 0;
        let mut target: Option<usize> = None;
        while i < self.vertices.len() && target.is_none()
            invariant
                self.inv(),
                0 <= i <= self.vertices.len(),
                target is None ==> forall|j: int|
                    0 <= j < i ==> !(self.vertices@[j].id.number == number
                        && self.vertices@[j]@.ready()),
                target matches Some(t) ==> {
                    &&& t < self.vertices.len()
                    &&& self.vertices@[t as int].id.number == number
                    &&& self.vertices@[t as int]@.ready()
                },
            decreases self.vertices.len() - i + if target is None { 1int } else { 0int },
        {
            if self.vertices[i].id.number == number && self.vertices[i].imported
                && self.vertices[i].justification.is_some() {
                target = Some(i);
            } else {
                i = i + 1;
            }
        }
        let t = match target {
            None => {
                proof {
                    assert forall|id: BlockId| !(#[trigger] self@.ready(id) && id.number
                        == number) by {
                        if self@.ready(id) && id.number == number {
                            let j = index_of(self.vertices@, id);
                            lemma_map_lookup(self.vertices@, j);
                        }
                    }
                }
                return None;
            },
            Some(t) => t,
        };
        let id = self.vertices[t].id;
        let ghost before = self.vertices@;
        proof {
            lemma_map_lookup(before, t as int);
            assert(self@.ready(id));
            crate::forest_model::lemma_ready_at_is_unique(self@, id);
        }
        let mut kept: Vec<Vertex> = Vec::new();
        let mut finalized: Option<Justification> = None;
        let ghost mut source: Seq<int> = Seq::empty();
        while self.vertices.len() > 0
            invariant
                self.root == old(self).root,
                self.highest_justified == old(self).highest_justified,
                self.vertices@.len() <= before.len(),
                self.vertices@ == before.subrange(0, self.vertices@.len() as int),
                0 <= t < before.len(),
                before[t as int].id == id,
                id.number == number,
                source.len() == kept@.len(),
                forall|m: int|
                    0 <= m < source.len() ==> {
                        &&& self.vertices@.len() <= #[trigger] source[m] < before.len()
                        &&& kept@[m] == before[source[m]]
                        &&& before[source[m]].id.number > number
                    },
                forall|m: int, n: int| 0 <= m < n < source.len() ==> source[m] > source[n],
                forall|j: int|
                    self.vertices@.len() <= j < before.len() && (#[trigger] before[j]).id.number
                        > number ==> exists|m: int| 0 <= m < source.len() && source[m] == j,
                self.vertices@.len() <= t ==> view_of(finalized) == before[t as int]@.justification,
                self.vertices@.len() > t ==> finalized is None,
            decreases self.vertices@.len(),
        {
            let ghost length = self.vertices@.len();
            match self.vertices.pop() {
                None => {},
                Some(vertex) => {
                    proof {
                        assert(vertex == before[length - 1]);
                        assert(self.vertices@ =~= before.subrange(0, length - 1));
                    }
                    if vertex.id.number > number {
                        proof {
                            let ghost old_source = source;
                            source = source.push(length - 1);
                            assert forall|j: int|
                                self.vertices@.len() <= j < before.len() && (
                                #[trigger] before[j]).id.number > number implies exists|m: int|
                                0 <= m < source.len() && source[m] == j by {
                                if j == length - 1 {
                                    assert(source[old_source.len() as int] == j);
                                } else {
                                    let m = choose|m: int|
                                        0 <= m < old_source.len() && old_source[m] == j;
                                    assert(source[m] == j);
                                }
                            }
                        }
                        kept.push(vertex);
                    } else if self.vertices.len() == t {
                        finalized = vertex.justification;
                    }
                },
            }
        }
        self.vertices = kept;
        self.root = id;
        if self.highest_justified.number <= id.number {
            self.highest_justified = id;
        }
        proof {
            let after = self.vertices@;
            let model = old(self)@.rooted_at(id);
            assert(unique_ids(after)) by {
                assert forall|a: int, b: int| 0 <= a < b < after.len() implies after[a].id
                    != after[b].id by {
                    assert(source[a] > source[b]);
                    assert(before[source[b]].id != before[source[a]].id);
                }
            }
            assert forall|m: int| 0 <= m < after.len() implies (#[trigger] after[m]).wf() by {
                assert(after[m] == before[source[m]]);
            }
            assert forall|other: BlockId| has_id(after, other) <==> model.vertices.dom().contains(
                other,
            ) by {
                if has_id(after, other) {
                    let m = index_of(after, other);
                    lemma_map_lookup(before, source[m]);
                }
                if model.vertices.dom().contains(other) {
                    let j = index_of(before, other);
                    lemma_map_lookup(before, j);
                    assert(before[j].id.number > number);
                    let m = choose|m: int| 0 <= m < source.len() && source[m] == j;
                    assert(after[m].id == other);
                }
            }
            assert forall|other: BlockId| has_id(after, other) implies #[trigger] vertex_map(
                after,
            )[other] == model.vertices[other] by {
                let m = index_of(after, other);
                lemma_map_lookup(after, m);
                lemma_map_lookup(before, source[m]);
            }
            assert(vertex_map(after) =~= model.vertices);
        }
        finalized
    }

    /// What to tell a peer about the branch of `id` when requesting it.
    fn branch_knowledge(&self, id: BlockId) -> (knowledge: BranchKnowledge)
        requires
            self.wf(),
        ensures
            knowledge == self@.branch_knowledge(id),
    {
        let mut current = id;
        loop
            invariant
                self.wf(),
                self@.branch_knowledge(current) == self@.branch_knowledge(id),
            decreases current.number,
        {
            match self.find(current) {
                None => {
                    return BranchKnowledge::LowestId(current);
                },
                Some(i) => {
                    if self.vertices[i].imported {
                        return BranchKnowledge::TopImported(current);
                    }
                    match self.vertices[i].parent {
                        None => {
                            return BranchKnowledge::LowestId(current);
                        },
                        Some(parent) => {
                            if parent == self.root {
                                return BranchKnowledge::TopImported(parent);
                            }
                            if parent.number < current.number && self.find(parent).is_some() {
                                current = parent;
                            } else {
                                return BranchKnowledge::LowestId(current);
                            }
                        },
                    }
                },
            }
        }
    }

    /// Whether no block above `number` is still to be fetched.
    fn top_wanted(&self, id: BlockId) -> (top: bool)
        requires
            self.inv(),
        ensures
            top == self@.top_wanted(id),
    {
        let mut i: usize = 0;
        while i < self.vertices.len()
            invariant
                self.inv(),
                0 <= i <= self.vertices.len(),
                forall|j: int|
                    0 <= j < i ==> !(self.vertices@[j]@.wanted() && self.vertices@[j].id.number
                        > id.number),
            decreases self.vertices.len() - i,
        {
            let vertex = &self.vertices[i];
            if !vertex.imported && (vertex.required || vertex.justification.is_some())
                && vertex.id.number > id.number {
                proof {
                    lemma_map_lookup(self.vertices@, i as int);
                    assert(self@.wanted(self.vertices@[i as int].id));
                }
                return false;
            }
            i = i + 1;
        }
        proof {
            assert forall|other: BlockId| #[trigger] self@.wanted(other) implies other.number
                <= id.number by {
                let j = index_of(self.vertices@, other);
                lemma_map_lookup(self.vertices@, j);
            }
        }
        true
    }

    /// The interest that the node has in the block `id`.
    pub fn state(&self, id: &BlockId) -> (interest: Interest)
        requires
            self.wf(),
        ensures
            interest@ == self@.state(*id),
            interest.peers_distinct(),
            id.number <= self@.root.number ==> interest@ == InterestView::Uninterested,
    {
        proof {
            crate::forest_model::lemma_no_interest_at_or_below_frontier(self@, *id);
        }
        let i = match self.find(*id) {
            None => {
                return Interest::Uninterested;
            },
            Some(i) => i,
        };
        let vertex = &self.vertices[i];
        if vertex.imported || !(vertex.required || vertex.justification.is_some()) {
            return Interest::Uninterested;
        }
        let know_most = vertex.know_most.clone();
        proof {
            assert(know_most@ =~= vertex.know_most@);
        }
        let branch_knowledge = self.branch_knowledge(*id);
        if *id == self.highest_justified {
            Interest::HighestJustified { know_most, branch_knowledge }
        } else if self.top_wanted(*id) {
            Interest::TopRequired { know_most, branch_knowledge }
        } else {
            Interest::Required { know_most, branch_knowledge }
        }
    }
}

/// The contents of a justification that may be absent.
pub open spec fn view_of(justification: Option<Justification>) -> Option<
    crate::justification::JustificationView,
> {
    match justification {
        Some(justification) => Some(justification@),
        None => None,
    }
}

/// As many blocks are tracked as there are vertices.
proof fn lemma_map_len(vertices: Seq<Vertex>)
    requires
        unique_ids(vertices),
    ensures
        vertex_map(vertices).dom().finite(),
        vertex_map(vertices).dom().len() == vertices.len(),
    decreases vertices.len(),
{
    lemma_map_finite(vertices);
    if vertices.len() == 0 {
        assert(vertex_map(vertices).dom() =~= Set::<BlockId>::empty());
    } else {
        let front = vertices.drop_last();
        assert(unique_ids(front)) by {
            assert forall|i: int, j: int| 0 <= i < j < front.len() implies front[i].id
                != front[j].id by {
                assert(front[i] == vertices[i]);
                assert(front[j] == vertices[j]);
            }
        }
        lemma_map_len(front);
        assert(!has_id(front, vertices.last().id)) by {
            if has_id(front, vertices.last().id) {
                let i = index_of(front, vertices.last().id);
                assert(front[i] == vertices[i]);
                assert(vertices[i].id != vertices[vertices.len() - 1].id);
            }
        }
        assert(vertices =~= front.push(vertices.last()));
        lemma_map_push(front, vertices.last());
        assert(vertex_map(vertices).dom() =~= vertex_map(front).dom().insert(vertices.last().id));
    }
}

} // verus!
