//! What block import does for finality: the justifications that arrive with
//! imported blocks are taken out, decoded and translated, ready to be handed
//! to the task that finalizes blocks.

use vstd::prelude::*;
use crate::block::{BlockHash, BlockId, Header, HeaderView};
use crate::compatibility::{backwards_compatible_decode, spec_decode, DecodeError};
use crate::justification::{Justification, JustificationView, SelendraJustification};

verus! {

/// The tag under which a consensus engine files its justifications.
pub type ConsensusEngineId = [u8; 4];

/// The tag of this engine: the bytes of `FRNK`.
pub const SELENDRA_ENGINE_ID: ConsensusEngineId = [70u8, 82u8, 78u8, 75u8];

/// Whether two tags name the same engine.
pub fn same_engine(first: &ConsensusEngineId, second: &ConsensusEngineId) -> (same: bool)
    ensures
        same == (first@ == second@),
{
    let same = first[0] == second[0] && first[1] == second[1] && first[2] == second[2] && first[3]
        == second[3];
    proof {
        if same {
            assert(first@ =~= second@);
        }
    }
    same
}

/// Where a block that is to be imported came from.
#[derive(Clone, Copy, Debug, PartialEq, Eq, Structural)]
pub enum BlockOrigin {
    /// Genesis block built into the client.
    Genesis,
    /// Block is part of the initial sync with the network.
    NetworkInitialSync,
    /// Block was broadcasted on the network.
    NetworkBroadcast,
    /// Block that was received from the network and validated in the consensus process.
    ConsensusBroadcast,
    /// Block that was collated by this node.
    Own,
    /// Block was imported from a file.
    File,
    /// Block from a warp sync proof, verified already.
    WarpSync,
    /// Block imported during gap sync, to fill a gap in the history.
    GapSync,
}

/// The origin under which the underlying import sees a block: a block of
/// the initial sync passes for one that was broadcast, every other block
/// keeps its origin.
pub open spec fn spec_effective_origin(origin: BlockOrigin) -> BlockOrigin {
    match origin {
        BlockOrigin::NetworkInitialSync => BlockOrigin::NetworkBroadcast,
        other => other,
    }
}

/// The origin under which the underlying import sees a block.
pub fn effective_origin(origin: BlockOrigin) -> (effective: BlockOrigin)
    ensures
        effective == spec_effective_origin(origin),
        effective != BlockOrigin::NetworkInitialSync,
{
    match origin {
        BlockOrigin::NetworkInitialSync => BlockOrigin::NetworkBroadcast,
        other => other,
    }
}

/// The justifications that came with a block, each under the tag of the
/// engine that filed it.
#[verifier::external_type_specification]
#[verifier::external_body]
pub struct ExJustifications(sp_runtime::Justifications);

/// What a collection of justifications holds: the tag and the bytes of each
/// justification, in the order in which they were filed.
pub uninterp spec fn justifications_held(justifications: sp_runtime::Justifications) -> Seq<
    (Seq<u8>, Seq<u8>),
>;

/// The index of the first justification filed under the tag `engine`, if
/// one was filed under it.
pub open spec fn spec_position_of(held: Seq<(Seq<u8>, Seq<u8>)>, engine: Seq<u8>) -> Option<int>
    decreases held.len(),
{
    if held.len() == 0 {
        None
    } else if held[0].0 == engine {
        Some(0)
    } else {
        match spec_position_of(held.drop_first(), engine) {
            Some(position) => Some(position + 1),
            None => None,
        }
    }
}

/// The position found holds a justification of the engine, and none before
/// it does; where none is found, the engine filed none.
pub proof fn lemma_position_of(held: Seq<(Seq<u8>, Seq<u8>)>, engine: Seq<u8>)
    ensures
        match spec_position_of(held, engine) {
            Some(position) => 0 <= position < held.len() && held[position].0 == engine
                && forall|i: int| 0 <= i < position ==> (#[trigger] held[i]).0 != engine,
            None => forall|i: int| 0 <= i < held.len() ==> (#[trigger] held[i]).0 != engine,
        },
    decreases held.len(),
{
    if held.len() > 0 && held[0].0 != engine {
        let rest = held.drop_first();
        lemma_position_of(rest, engine);
        match spec_position_of(rest, engine) {
            Some(position) => {
                assert forall|i: int| 0 <= i < position + 1 implies (#[trigger] held[i]).0
                    != engine by {
                    if i > 0 {
                        assert(held[i] == rest[i - 1]);
                    }
                }
            },
            None => {
                assert forall|i: int| 0 <= i < held.len() implies (#[trigger] held[i]).0
                    != engine by {
                    if i > 0 {
                        assert(held[i] == rest[i - 1]);
                    }
                }
            },
        }
    }
}

/// `sp_runtime::Justifications::into_justification`: the bytes of the first
/// justification in the collection that was filed under `engine`, or nothing
/// where none was filed under it.
#[verifier::external_body]
fn into_justification(
    justifications: sp_runtime::Justifications,
    engine: ConsensusEngineId,
) -> (found: Option<Vec<u8>>)
    ensures
        match spec_position_of(justifications_held(justifications), engine@) {
            Some(position) => found matches Some(raw) && raw@ == justifications_held(
                justifications,
            )[position].1,
            None => found is None,
        },
{
    justifications.into_justification(engine)
}

/// Why a justification could not be translated for the block it came with.
#[derive(Clone, Copy, Debug, PartialEq, Eq, Structural)]
pub enum TranslateError {
    /// The node has no header for the block.
    NoBlock,
    /// The header that the node has under the block's hash is of another height.
    HeaderMismatch,
}

/// The justification of the block `block_id` with the certificate `raw`,
/// given the header that the node holds under the hash of the block.
pub open spec fn spec_translate(
    raw: Seq<u8>,
    block_id: BlockId,
    header: Option<HeaderView>,
) -> Result<JustificationView, TranslateError> {
    match header {
        None => Err(TranslateError::NoBlock),
        Some(header) => {
            if header.spec_id() == block_id {
                Ok(JustificationView { header, certificate: Some(raw) })
            } else {
                Err(TranslateError::HeaderMismatch)
            }
        },
    }
}

/// The contents of a header that may be absent.
pub open spec fn header_view(header: Option<Header>) -> Option<HeaderView> {
    match header {
        Some(header) => Some(header@),
        None => None,
    }
}

/// Translates a raw justification into one that synchronisation accepts,
/// given the header that the node holds under the hash of the block.
pub fn translate_with_header(
    raw_justification: SelendraJustification,
    block_id: BlockId,
    header: Option<Header>,
) -> (translated: Result<Justification, TranslateError>)
    ensures
        match translated {
            Ok(justification) => spec_translate(raw_justification@, block_id, header_view(header))
                == Ok::<JustificationView, TranslateError>(justification@),
            Err(error) => spec_translate(raw_justification@, block_id, header_view(header))
                == Err::<JustificationView, TranslateError>(error),
        },
{
    match header {
        None => Err(TranslateError::NoBlock),
        Some(header) => {
            if header.id() == block_id {
                Ok(Justification::selendra_justification(header, raw_justification))
            } else {
                Err(TranslateError::HeaderMismatch)
            }
        },
    }
}

/// Translates raw selendra justifications into ones acceptable to sync.
pub trait JustificationTranslator {
    type Error;

    /// Whether the translator may give `answer` when it is handed
    /// `raw_justification` for the block `block_id`. This holds of every
    /// answer unless an implementation says otherwise.
    open spec fn translate_gives(
        &self,
        raw_justification: SelendraJustification,
        block_id: BlockId,
        answer: Result<Justification, Self::Error>,
    ) -> bool {
        true
    }

    fn translate(&self, raw_justification: SelendraJustification, block_id: BlockId) -> (answer:
        Result<Justification, Self::Error>)
        ensures
            self.translate_gives(raw_justification, block_id, answer),
    ;
}

/// The stage at which a justification was lost on its way to the task that
/// finalizes blocks.
#[derive(Debug, PartialEq, Eq)]
pub enum SendJustificationError<TE> {
    /// The channel to the finalizing task did not take the justification.
    Send,
    /// The justification was filed by another engine.
    Consensus,
    /// The bytes of the justification could not be decoded.
    Decode(DecodeError),
    /// The justification could not be translated for its block.
    Translate(TE),
}

/// What is handed on for the answer of the translator: the justification
/// it gave, or its failure as the failure to translate.
pub open spec fn translated<TE>(answer: Result<Justification, TE>) -> Result<
    Justification,
    SendJustificationError<TE>,
> {
    match answer {
        Ok(justification) => Ok(justification),
        Err(error) => Err(SendJustificationError::Translate(error)),
    }
}

/// Whether `result` is what the translator gives for the certificate
/// `certificate` of the block `block_id`: the translator is handed the
/// certificate and the block, and its answer is handed on.
pub open spec fn translation_handed_on<JT: JustificationTranslator>(
    translator: JT,
    certificate: Seq<u8>,
    block_id: BlockId,
    result: Result<Justification, SendJustificationError<JT::Error>>,
) -> bool {
    exists|raw: SelendraJustification, answer: Result<Justification, JT::Error>|
        {
            &&& raw@ == certificate
            &&& #[trigger] translator.translate_gives(raw, block_id, answer)
            &&& result == translated(answer)
        }
}

/// Whether `result` is what preparing the justification of the tag `tag`
/// and the bytes `bytes` for the block `block_id` gives. A justification of
/// another engine than `engine` is refused. Bytes that do not decode are
/// refused with the failure of the decoding. Otherwise the translator is
/// handed the decoded certificate and the block, and its answer is handed
/// on.
pub open spec fn justification_prepared<JT: JustificationTranslator>(
    translator: JT,
    engine: Seq<u8>,
    block_id: BlockId,
    tag: Seq<u8>,
    bytes: Seq<u8>,
    result: Result<Justification, SendJustificationError<JT::Error>>,
) -> bool {
    if tag != engine {
        result matches Err(SendJustificationError::Consensus)
    } else {
        match spec_decode(bytes) {
            Err(error) => result == Err::<Justification, SendJustificationError<JT::Error>>(
                SendJustificationError::Decode(error),
            ),
            Ok(certificate) => translation_handed_on(translator, certificate, block_id, result),
        }
    }
}

/// What a justification that came with a block, or by itself, is checked
/// and turned into on its way to the task that finalizes blocks.
#[derive(Clone)]
pub struct SelendraBlockImport<JT: JustificationTranslator> {
    translator: JT,
    engine_id: ConsensusEngineId,
}

impl<JT: JustificationTranslator> SelendraBlockImport<JT> {
    /// The tag of the engine whose justifications are forwarded.
    pub closed spec fn engine(&self) -> ConsensusEngineId {
        self.engine_id
    }

    /// The translator that is asked for the justifications that go out.
    pub closed spec fn translator(&self) -> JT {
        self.translator
    }

    /// An import for the justifications filed under `engine_id`, with
    /// `translator` to translate them.
    pub fn new(translator: JT, engine_id: ConsensusEngineId) -> (import: Self)
        ensures
            import.engine() == engine_id,
            import.translator() == translator,
    {
        SelendraBlockImport { translator, engine_id }
    }

    /// The tag of the engine whose justifications are forwarded.
    pub fn engine_id(&self) -> (engine_id: ConsensusEngineId)
        ensures
            engine_id == self.engine(),
    {
        self.engine_id
    }

    /// Prepares a justification for the block `block_id` for sending: a
    /// justification of another engine is refused, the bytes are decoded,
    /// and the translator is asked for the justification that goes out.
    pub fn send_justification(
        &self,
        block_id: BlockId,
        justification: (ConsensusEngineId, Vec<u8>),
    ) -> (result: Result<Justification, SendJustificationError<JT::Error>>)
        ensures
            justification_prepared(
                self.translator(),
                self.engine()@,
                block_id,
                justification.0@,
                justification.1@,
                result,
            ),
    {
        if !same_engine(&justification.0, &self.engine_id) {
            return Err(SendJustificationError::Consensus);
        }
        let selendra_justification = match backwards_compatible_decode(justification.1) {
            Ok(decoded) => decoded,
            Err(error) => {
                return Err(SendJustificationError::Decode(error));
            },
        };
        let ghost raw = selendra_justification;
        let answer = self.translator.translate(selendra_justification, block_id);
        let ghost given = answer;
        proof {
            assert(self.translator.translate_gives(raw, block_id, given));
        }
        let result = match answer {
            Ok(translated) => Ok(translated),
            Err(error) => Err(SendJustificationError::Translate(error)),
        };
        proof {
            assert(result == translated(given));
            assert(translation_handed_on(self.translator, raw@, block_id, result));
        }
        result
    }

    /// What follows the import of a block: where the block was imported and
    /// came with a justification of this engine, the justification is
    /// prepared for sending under the identifier that the block has after
    /// import, of the hash `post_hash` and the height `number`. Nothing
    /// follows otherwise.
    pub fn import_block(
        &self,
        imported: bool,
        post_hash: BlockHash,
        number: u32,
        justifications: Option<sp_runtime::Justifications>,
    ) -> (result: Option<Result<Justification, SendJustificationError<JT::Error>>>)
        ensures
            !imported || justifications is None ==> result is None,
            imported && justifications is Some ==> match spec_position_of(
                justifications_held(justifications->0),
                self.engine()@,
            ) {
                None => result is None,
                Some(position) => result matches Some(outcome) && justification_prepared(
                    self.translator(),
                    self.engine()@,
                    BlockId { hash: post_hash, number },
                    self.engine()@,
                    justifications_held(justifications->0)[position].1,
                    outcome,
                ),
            },
    {
        if !imported {
            return None;
        }
        let justifications = match justifications {
            Some(justifications) => justifications,
            None => {
                return None;
            },
        };
        match into_justification(justifications, self.engine_id) {
            Some(raw) => Some(
                self.send_justification(BlockId::new(post_hash, number), (self.engine_id, raw)),
            ),
            None => None,
        }
    }

    /// Prepares a justification that arrived by itself for the block of
    /// hash `hash` and height `number`.
    pub fn import_justification(
        &self,
        hash: BlockHash,
        number: u32,
        justification: (ConsensusEngineId, Vec<u8>),
    ) -> (result: Result<Justification, SendJustificationError<JT::Error>>)
        ensures
            justification_prepared(
                self.translator(),
                self.engine()@,
                BlockId { hash, number },
                justification.0@,
                justification.1@,
                result,
            ),
    {
        self.send_justification(BlockId::new(hash, number), justification)
    }
}

} // verus!
