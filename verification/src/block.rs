//! Block identifiers and headers, as far as synchronisation reads them.

use vstd::prelude::*;

verus! {

/// The height of a block.
pub type BlockNumber = u32;

/// A 256-bit content hash, held as two halves in big-endian order.
#[derive(Clone, Copy, Debug, PartialEq, Eq, Hash, Structural)]
pub struct BlockHash {
    pub high: u128,
    pub low: u128,
}

/// The identifier of a block: its hash together with its height.
///
/// Two identifiers are equal when hash and height agree; identifiers are
/// ordered by height alone.
#[derive(Clone, Copy, Debug, PartialEq, Eq, Hash, Structural)]
pub struct BlockId {
    pub hash: BlockHash,
    pub number: BlockNumber,
}

impl BlockId {
    pub fn new(hash: BlockHash, number: BlockNumber) -> (id: BlockId)
        ensures
            id == (BlockId { hash, number }),
    {
        BlockId { hash, number }
    }

    pub fn hash(&self) -> (hash: BlockHash)
        ensures
            hash == self.hash,
    {
        self.hash
    }

    pub fn number(&self) -> (number: BlockNumber)
        ensures
            number == self.number,
    {
        self.number
    }

    /// Whether `self` lies strictly below `other` in the order by height.
    pub fn is_below(&self, other: &BlockId) -> (below: bool)
        ensures
            below == (self.number < other.number),
    {
        self.number < other.number
    }
}

/// The contents of a [`Header`].
pub struct HeaderView {
    pub hash: BlockHash,
    pub parent_hash: BlockHash,
    pub number: BlockNumber,
    pub encoded: Seq<u8>,
}

impl HeaderView {
    /// The identifier of the block that the header belongs to.
    pub open spec fn spec_id(self) -> BlockId {
        BlockId { hash: self.hash, number: self.number }
    }

    /// The identifier of the parent block; the block at height zero has none.
    pub open spec fn spec_parent_id(self) -> Option<BlockId> {
        if self.number == 0 {
            None
        } else {
            Some(BlockId { hash: self.parent_hash, number: (self.number - 1) as u32 })
        }
    }
}

/// A block header: the hash, the hash of the parent and the height, which
/// synchronisation reads, and the header as the chain encodes it, which
/// synchronisation carries along and never looks into.
#[derive(Debug, PartialEq, Eq)]
pub struct Header {
    pub hash: BlockHash,
    pub parent_hash: BlockHash,
    pub number: BlockNumber,
    pub encoded: Vec<u8>,
}

impl View for Header {
    type V = HeaderView;

    open spec fn view(&self) -> HeaderView {
        HeaderView {
            hash: self.hash,
            parent_hash: self.parent_hash,
            number: self.number,
            encoded: self.encoded@,
        }
    }
}

impl Clone for Header {
    fn clone(&self) -> (copy: Self)
        ensures
            copy@ == self@,
    {
        Header {
            hash: self.hash,
            parent_hash: self.parent_hash,
            number: self.number,
            encoded: self.encoded.clone(),
        }
    }
}

impl Header {
    pub fn new(
        hash: BlockHash,
        parent_hash: BlockHash,
        number: BlockNumber,
        encoded: Vec<u8>,
    ) -> (header: Header)
        ensures
            header@ == (HeaderView { hash, parent_hash, number, encoded: encoded@ }),
    {
        Header { hash, parent_hash, number, encoded }
    }

    /// The identifier of the block this header belongs to.
    pub fn id(&self) -> (id: BlockId)
        ensures
            id == self@.spec_id(),
    {
        BlockId { hash: self.hash, number: self.number }
    }

    /// The identifier of the parent block; the block at height zero has none.
    pub fn parent_id(&self) -> (parent: Option<BlockId>)
        ensures
            parent == self@.spec_parent_id(),
    {
        match self.number.checked_sub(1) {
            Some(number) => Some(BlockId { hash: self.parent_hash, number }),
            None => None,
        }
    }
}

/// A parent, where there is one, sits exactly one level below its child.
pub proof fn lemma_parent_is_one_below(header: HeaderView)
    ensures
        header.spec_parent_id() matches Some(parent) ==> parent.number + 1 == header.number,
        header.spec_parent_id() is None <==> header.number == 0,
{
}

/// A peer of the synchronisation network, named by the number under which the
/// caller keeps it.
#[derive(Clone, Copy, Debug, PartialEq, Eq, Hash, Structural)]
pub struct PeerId {
    pub index: u64,
}

} // verus!
