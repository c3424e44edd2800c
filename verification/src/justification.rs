//! Justifications: the artifacts that prove a block final.

use vstd::prelude::*;
use crate::block::{BlockId, Header, HeaderView};

verus! {

/// The certificate that the committee issued for a block, as the bytes that the
/// verifier checks.
#[derive(Debug, PartialEq, Eq)]
pub struct SelendraJustification {
    pub certificate: Vec<u8>,
}

impl View for SelendraJustification {
    type V = Seq<u8>;

    open spec fn view(&self) -> Seq<u8> {
        self.certificate@
    }
}

impl Clone for SelendraJustification {
    fn clone(&self) -> (copy: Self)
        ensures
            copy@ == self@,
    {
        SelendraJustification { certificate: self.certificate.clone() }
    }
}

/// Proper `SelendraJustification` or a variant indicating virtual justification
/// for the genesis block, which is the only block that can be the top finalized
/// block with no proper justification.
#[derive(Debug, PartialEq, Eq)]
pub enum InnerJustification {
    SelendraJustification(SelendraJustification),
    Genesis,
}

impl View for InnerJustification {
    type V = Option<Seq<u8>>;

    open spec fn view(&self) -> Option<Seq<u8>> {
        match self {
            InnerJustification::SelendraJustification(justification) => Some(justification@),
            InnerJustification::Genesis => None,
        }
    }
}

impl Clone for InnerJustification {
    fn clone(&self) -> (copy: Self)
        ensures
            copy@ == self@,
    {
        match self {
            InnerJustification::SelendraJustification(justification) => {
                InnerJustification::SelendraJustification(justification.clone())
            },
            InnerJustification::Genesis => InnerJustification::Genesis,
        }
    }
}

/// The mathematical content of a [`Justification`]: the header, and the
/// certificate bytes unless it is the genesis marker.
pub struct JustificationView {
    pub header: HeaderView,
    pub certificate: Option<Seq<u8>>,
}

impl JustificationView {
    /// The block that the justification is for.
    pub open spec fn id(self) -> BlockId {
        self.header.spec_id()
    }

    /// The height of the block that the justification is for.
    pub open spec fn number(self) -> u32 {
        self.header.number
    }
}

/// A justification, including the related header.
#[derive(Debug, PartialEq, Eq)]
pub struct Justification {
    header: Header,
    inner_justification: InnerJustification,
}

impl View for Justification {
    type V = JustificationView;

    closed spec fn view(&self) -> JustificationView {
        JustificationView { header: self.header@, certificate: self.inner_justification@ }
    }
}

impl Clone for Justification {
    fn clone(&self) -> (copy: Self)
        ensures
            copy@ == self@,
    {
        Justification {
            header: self.header.clone(),
            inner_justification: self.inner_justification.clone(),
        }
    }
}

impl Justification {
    /// A justification that carries a committee certificate.
    pub fn selendra_justification(
        header: Header,
        selendra_justification: SelendraJustification,
    ) -> (justification: Self)
        ensures
            justification@ == (JustificationView {
                header: header@,
                certificate: Some(selendra_justification@),
            }),
    {
        Justification {
            header,
            inner_justification: InnerJustification::SelendraJustification(selendra_justification),
        }
    }

    /// The virtual justification of the genesis block.
    pub fn genesis_justification(header: Header) -> (justification: Self)
        ensures
            justification@ == (JustificationView { header: header@, certificate: None }),
    {
        Justification { header, inner_justification: InnerJustification::Genesis }
    }

    /// The block that the justification is for.
    pub fn id(&self) -> (id: BlockId)
        ensures
            id == self@.id(),
    {
        self.header.id()
    }

    /// The parent of the block that the justification is for.
    pub fn parent_id(&self) -> (parent: Option<BlockId>)
        ensures
            parent == self@.header.spec_parent_id(),
    {
        self.header.parent_id()
    }

    /// The header of the block that the justification is for.
    pub fn header(&self) -> (header: &Header)
        ensures
            header@ == self@.header,
    {
        &self.header
    }

    /// The certificate, unless this is the genesis marker.
    pub fn inner(&self) -> (inner: &InnerJustification)
        ensures
            inner@ == self@.certificate,
    {
        &self.inner_justification
    }

    /// Whether this is the virtual justification of the genesis block.
    pub fn is_genesis(&self) -> (genesis: bool)
        ensures
            genesis == (self@.certificate is None),
    {
        match self.inner_justification {
            InnerJustification::Genesis => true,
            InnerJustification::SelendraJustification(_) => false,
        }
    }

    /// The same justification, as one that still awaits verification.
    pub fn into_unverified(self) -> (unverified: Self)
        ensures
            unverified@ == self@,
    {
        self
    }
}

} // verus!
