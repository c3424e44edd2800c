use finality_selendra::block::{BlockHash, BlockId, Header, PeerId};
use finality_selendra::data::BranchKnowledge;
use finality_selendra::forest::{Forest, Interest};
use finality_selendra::forest_model::{ForestError, MAX_DEPTH};
use finality_selendra::justification::{Justification, SelendraJustification};

fn hash(number: u32) -> BlockHash {
    BlockHash { high: 7, low: number as u128 }
}

fn id(number: u32) -> BlockId {
    BlockId::new(hash(number), number)
}

fn header(number: u32) -> Header {
    Header::new(hash(number), hash(number.wrapping_sub(1)), number, vec![number as u8, 0xee])
}

fn justification(number: u32) -> Justification {
    Justification::selendra_justification(
        header(number),
        SelendraJustification { certificate: vec![number as u8, 1, 2] },
    )
}

fn peer(index: u64) -> PeerId {
    PeerId { index }
}

#[test]
fn fresh_forest_is_uninterested_in_everything() {
    let forest = Forest::new(id(90));
    assert_eq!(forest.root(), id(90));
    assert_eq!(forest.highest_justified(), id(90));
    assert_eq!(forest.len(), 0);
    assert_eq!(forest.state(&id(90)), Interest::Uninterested);
    assert_eq!(forest.state(&id(91)), Interest::Uninterested);
    assert_eq!(forest.state(&id(3)), Interest::Uninterested);
}

#[test]
fn justification_above_the_frontier_is_highest_justified() {
    let mut forest = Forest::new(id(90));
    assert_eq!(forest.update_justification(justification(100), Some(peer(1))), Ok(true));
    assert_eq!(forest.highest_justified(), id(100));
    assert_eq!(
        forest.state(&id(100)),
        Interest::HighestJustified {
            know_most: vec![peer(1)],
            branch_knowledge: BranchKnowledge::LowestId(id(100)),
        }
    );
}

#[test]
fn same_justification_twice_is_no_news() {
    let mut forest = Forest::new(id(90));
    assert_eq!(forest.update_justification(justification(100), Some(peer(1))), Ok(true));
    assert_eq!(forest.update_justification(justification(100), Some(peer(1))), Ok(false));
    assert_eq!(forest.len(), 1);
    assert_eq!(forest.update_justification(justification(100), Some(peer(2))), Ok(false));
    assert_eq!(
        forest.state(&id(100)),
        Interest::HighestJustified {
            know_most: vec![peer(1), peer(2)],
            branch_knowledge: BranchKnowledge::LowestId(id(100)),
        }
    );
}

#[test]
fn lower_justification_is_required_not_highest() {
    let mut forest = Forest::new(id(90));
    assert_eq!(forest.update_justification(justification(100), Some(peer(1))), Ok(true));
    assert_eq!(forest.update_justification(justification(95), Some(peer(2))), Ok(false));
    assert_eq!(
        forest.state(&id(95)),
        Interest::Required {
            know_most: vec![peer(2)],
            branch_knowledge: BranchKnowledge::LowestId(id(95)),
        }
    );
}

#[test]
fn explicitly_required_block_on_top_is_top_required() {
    let mut forest = Forest::new(id(90));
    assert_eq!(forest.update_justification(justification(95), Some(peer(2))), Ok(true));
    assert_eq!(forest.update_block_identifier(id(97), Some(peer(3)), true), Ok(true));
    assert_eq!(forest.update_block_identifier(id(97), Some(peer(3)), true), Ok(false));
    assert_eq!(
        forest.state(&id(97)),
        Interest::TopRequired {
            know_most: vec![peer(3)],
            branch_knowledge: BranchKnowledge::LowestId(id(97)),
        }
    );
    assert_eq!(
        forest.state(&id(95)),
        Interest::HighestJustified {
            know_most: vec![peer(2)],
            branch_knowledge: BranchKnowledge::LowestId(id(95)),
        }
    );
}

#[test]
fn second_justified_block_of_a_height_is_refused() {
    let mut forest = Forest::new(id(90));
    assert_eq!(forest.update_justification(justification(95), None), Ok(true));
    let rival = Justification::selendra_justification(
        Header::new(BlockHash { high: 8, low: 95 }, hash(94), 95, vec![]),
        SelendraJustification { certificate: vec![9] },
    );
    assert_eq!(forest.update_justification(rival, None), Err(ForestError::IncorrectVertexState));
}

#[test]
fn block_too_far_above_the_frontier_is_too_new() {
    let mut forest = Forest::new(id(90));
    assert_eq!(
        forest.update_justification(justification(90 + MAX_DEPTH + 1), None),
        Err(ForestError::TooNew)
    );
    assert_eq!(forest.update_justification(justification(90 + MAX_DEPTH), None), Ok(true));
    assert_eq!(
        forest.update_block_identifier(id(90 + MAX_DEPTH + 1), None, true),
        Err(ForestError::TooNew)
    );
    assert_eq!(forest.update_header(&header(90 + MAX_DEPTH + 1), None, false), Err(ForestError::TooNew));
    assert_eq!(forest.update_body(&header(90 + MAX_DEPTH + 1)), Err(ForestError::TooNew));
}

#[test]
fn block_at_or_below_the_frontier_is_ignored() {
    let mut forest = Forest::new(id(90));
    assert_eq!(forest.update_justification(justification(90), Some(peer(1))), Ok(false));
    assert_eq!(forest.update_justification(justification(50), Some(peer(1))), Ok(false));
    assert_eq!(forest.update_block_identifier(id(50), None, true), Ok(false));
    assert_eq!(forest.update_body(&header(50)), Ok(()));
    assert_eq!(forest.len(), 0);
    assert_eq!(forest.state(&id(50)), Interest::Uninterested);
}

#[test]
fn import_needs_an_imported_parent() {
    let mut forest = Forest::new(id(90));
    assert_eq!(forest.update_body(&header(92)), Err(ForestError::IncorrectParentState));
    assert_eq!(forest.update_header(&header(91), None, false), Ok(false));
    assert_eq!(forest.update_body(&header(92)), Err(ForestError::ParentNotImported));
    assert_eq!(forest.update_body(&header(91)), Ok(()));
    assert_eq!(forest.update_body(&header(92)), Ok(()));
}

#[test]
fn imported_and_justified_block_is_finalized() {
    let mut forest = Forest::new(id(90));
    assert_eq!(forest.update_justification(justification(91), Some(peer(1))), Ok(true));
    assert_eq!(forest.try_finalize(91), None);
    assert_eq!(forest.update_body(&header(91)), Ok(()));
    assert_eq!(forest.state(&id(91)), Interest::Uninterested);
    assert_eq!(forest.try_finalize(92), None);
    assert_eq!(forest.try_finalize(91), Some(justification(91)));
    assert_eq!(forest.root(), id(91));
    assert_eq!(forest.highest_justified(), id(91));
    assert_eq!(forest.len(), 0);
    assert_eq!(forest.try_finalize(91), None);
}

#[test]
fn finalizing_forgets_what_lies_at_or_below() {
    let mut forest = Forest::new(id(90));
    assert_eq!(forest.update_body(&header(91)), Ok(()));
    assert_eq!(forest.update_body(&header(92)), Ok(()));
    assert_eq!(forest.update_body(&header(93)), Ok(()));
    assert_eq!(forest.update_justification(justification(92), None), Ok(true));
    assert_eq!(forest.update_justification(justification(95), Some(peer(4))), Ok(true));
    assert_eq!(forest.len(), 4);
    assert_eq!(forest.try_finalize(92), Some(justification(92)));
    assert_eq!(forest.root(), id(92));
    assert_eq!(forest.highest_justified(), id(95));
    assert_eq!(forest.len(), 2);
    assert_eq!(forest.state(&id(91)), Interest::Uninterested);
    assert_eq!(forest.state(&id(92)), Interest::Uninterested);
}

#[test]
fn branch_knowledge_names_the_highest_imported_ancestor() {
    let mut forest = Forest::new(id(90));
    assert_eq!(forest.update_body(&header(91)), Ok(()));
    assert_eq!(forest.update_header(&header(92), None, false), Ok(false));
    assert_eq!(forest.update_header(&header(93), None, false), Ok(false));
    assert_eq!(forest.update_justification(justification(94), Some(peer(1))), Ok(true));
    assert_eq!(
        forest.state(&id(94)),
        Interest::HighestJustified {
            know_most: vec![peer(1)],
            branch_knowledge: BranchKnowledge::TopImported(id(91)),
        }
    );
}

#[test]
fn branch_knowledge_reaches_the_frontier() {
    let mut forest = Forest::new(id(90));
    assert_eq!(forest.update_justification(justification(91), Some(peer(1))), Ok(true));
    assert_eq!(
        forest.state(&id(91)),
        Interest::HighestJustified {
            know_most: vec![peer(1)],
            branch_knowledge: BranchKnowledge::TopImported(id(90)),
        }
    );
}

#[test]
fn branch_knowledge_names_the_lowest_known_header() {
    let mut forest = Forest::new(id(90));
    assert_eq!(forest.update_header(&header(93), None, false), Ok(false));
    assert_eq!(forest.update_header(&header(94), None, true), Ok(true));
    assert_eq!(
        forest.state(&id(94)),
        Interest::TopRequired {
            know_most: vec![],
            branch_knowledge: BranchKnowledge::LowestId(id(93)),
        }
    );
}
