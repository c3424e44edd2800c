use std::cell::RefCell;
use std::rc::Rc;

use finality_selendra::block::{BlockHash, BlockId, Header, PeerId};
use finality_selendra::data::{BranchKnowledge, NetworkData, Request, State};
use finality_selendra::forest::Interest;
use finality_selendra::forest_model::{ForestError, MAX_DEPTH};
use finality_selendra::handler::{ChainStatus, Error, Finalizer, Handler, SyncAction, Verifier};
use finality_selendra::justification::{Justification, SelendraJustification};
use finality_selendra::policy::{BlockStatus, FinalizationStatus};
use finality_selendra::session::SessionPeriod;

fn hash(number: u32) -> BlockHash {
    BlockHash { high: 1, low: number as u128 }
}

fn id(number: u32) -> BlockId {
    BlockId::new(hash(number), number)
}

fn header(number: u32) -> Header {
    Header::new(hash(number), hash(number.wrapping_sub(1)), number, vec![number as u8, 0xee])
}

fn justification(number: u32) -> Justification {
    if number == 0 {
        Justification::genesis_justification(header(0))
    } else {
        Justification::selendra_justification(
            header(number),
            SelendraJustification { certificate: vec![(number % 251) as u8, 42] },
        )
    }
}

fn bad_justification(number: u32) -> Justification {
    Justification::selendra_justification(
        header(number),
        SelendraJustification { certificate: vec![] },
    )
}

fn peer(index: u64) -> PeerId {
    PeerId { index }
}

fn state(number: u32) -> State {
    State::new(justification(number))
}

/// A chain that has finalized every block up to `top`, each with a
/// justification except those listed in `unjustified`.
struct Chain {
    top: u32,
    unjustified: Vec<u32>,
    imported_above: Vec<u32>,
    broken: bool,
    finalized: Vec<BlockId>,
    finalizer_broken: bool,
}

#[derive(Clone)]
struct Shared(Rc<RefCell<Chain>>);

impl Shared {
    fn new(top: u32) -> Self {
        Shared(Rc::new(RefCell::new(Chain {
            top,
            unjustified: vec![],
            imported_above: vec![],
            broken: false,
            finalized: vec![],
            finalizer_broken: false,
        })))
    }
}

impl ChainStatus for Shared {
    type Error = &'static str;

    fn top_finalized(&self) -> Result<Justification, Self::Error> {
        let chain = self.0.borrow();
        if chain.broken {
            return Err("chain is broken");
        }
        Ok(justification(chain.top))
    }

    fn block_status(&self, id: &BlockId) -> Result<BlockStatus, Self::Error> {
        let chain = self.0.borrow();
        if chain.broken {
            return Err("chain is broken");
        }
        if id.hash != hash(id.number) {
            return Ok(BlockStatus::Unknown);
        }
        if id.number <= chain.top || chain.imported_above.contains(&id.number) {
            Ok(BlockStatus::Imported)
        } else {
            Ok(BlockStatus::Unknown)
        }
    }

    fn finalized_at(&self, number: u32) -> Result<FinalizationStatus, Self::Error> {
        let chain = self.0.borrow();
        if chain.broken {
            return Err("chain is broken");
        }
        if number > chain.top {
            Ok(FinalizationStatus::NotFinalized)
        } else if chain.unjustified.contains(&number) {
            Ok(FinalizationStatus::FinalizedByDescendant)
        } else {
            Ok(FinalizationStatus::FinalizedWithJustification(justification(number)))
        }
    }
}

/// Passes every justification whose certificate is not empty.
struct Checker;

impl Verifier for Checker {
    type Error = &'static str;

    fn verify(&self, justification: Justification) -> Result<Justification, Self::Error> {
        match justification.inner() {
            finality_selendra::justification::InnerJustification::SelendraJustification(inner)
                if inner.certificate.is_empty() =>
            {
                Err("empty certificate")
            }
            _ => Ok(justification),
        }
    }
}

impl Finalizer for Shared {
    type Error = &'static str;

    fn finalize(&self, id: BlockId, _justification: Justification) -> Result<(), Self::Error> {
        let mut chain = self.0.borrow_mut();
        if chain.finalizer_broken {
            return Err("finalizer is broken");
        }
        chain.top = id.number;
        chain.finalized.push(id);
        Ok(())
    }
}

type TestHandler = Handler<Shared, Checker, Shared>;

fn handler(top: u32, period: u32) -> (TestHandler, Shared) {
    let shared = Shared::new(top);
    let handler = Handler::new(shared.clone(), Checker, shared.clone(), SessionPeriod(period))
        .ok()
        .expect("chain answers");
    (handler, shared)
}

#[test]
fn new_handler_starts_at_the_top_of_the_chain() {
    let (handler, _) = handler(90, 900);
    assert_eq!(handler.frontier(), id(90));
    assert_eq!(handler.state().ok(), Some(state(90)));
}

#[test]
fn new_handler_fails_with_a_broken_chain() {
    let shared = Shared::new(90);
    shared.0.borrow_mut().broken = true;
    let result = Handler::new(shared.clone(), Checker, shared.clone(), SessionPeriod(900));
    assert!(matches!(result, Err(Error::ChainStatus("chain is broken"))));
}

#[test]
fn state_fails_with_a_broken_chain() {
    let (handler, shared) = handler(90, 900);
    shared.0.borrow_mut().broken = true;
    assert_eq!(handler.state(), Err(Error::ChainStatus("chain is broken")));
}

#[test]
fn state_of_a_peer_ahead_gives_a_task_not_a_response() {
    let (mut handler, _) = handler(90, 900);
    let action = handler.handle_state(state(100), peer(1));
    assert_eq!(action, Ok(SyncAction::Task(id(100))));
    assert_eq!(
        handler.block_state(&id(100)),
        Interest::HighestJustified {
            know_most: vec![peer(1)],
            branch_knowledge: BranchKnowledge::LowestId(id(100)),
        }
    );
}

#[test]
fn same_state_twice_gives_nothing_the_second_time() {
    let (mut handler, _) = handler(90, 900);
    assert_eq!(handler.handle_state(state(100), peer(1)), Ok(SyncAction::Task(id(100))));
    assert_eq!(handler.handle_state(state(100), peer(1)), Ok(SyncAction::Noop));
    assert_eq!(handler.handle_state(state(100), peer(1)), Ok(SyncAction::Noop));
    assert_eq!(
        handler.block_state(&id(100)),
        Interest::HighestJustified {
            know_most: vec![peer(1)],
            branch_knowledge: BranchKnowledge::LowestId(id(100)),
        }
    );
}

#[test]
fn state_of_a_level_peer_gives_nothing() {
    let (mut handler, _) = handler(90, 900);
    assert_eq!(handler.handle_state(state(90), peer(1)), Ok(SyncAction::Noop));
}

#[test]
fn state_of_a_peer_behind_in_our_session_gives_our_top() {
    let (mut handler, _) = handler(90, 900);
    assert_eq!(
        handler.handle_state(state(80), peer(1)),
        Ok(SyncAction::Response(NetworkData::StateBroadcastResponse(justification(90), None)))
    );
}

#[test]
fn state_of_a_peer_one_session_behind_gives_its_session_end_and_our_top() {
    let (mut handler, _) = handler(1_000, 900);
    assert_eq!(
        handler.handle_state(state(80), peer(1)),
        Ok(SyncAction::Response(NetworkData::StateBroadcastResponse(
            justification(899),
            Some(justification(1_000)),
        )))
    );
}

#[test]
fn state_of_a_peer_far_behind_gives_two_session_ends() {
    let (mut handler, _) = handler(3_000, 900);
    assert_eq!(
        handler.handle_state(state(80), peer(1)),
        Ok(SyncAction::Response(NetworkData::StateBroadcastResponse(
            justification(899),
            Some(justification(1_799)),
        )))
    );
}

#[test]
fn missing_session_end_is_reported() {
    let (mut handler, shared) = handler(1_000, 900);
    shared.0.borrow_mut().unjustified = vec![899];
    assert_eq!(handler.handle_state(state(80), peer(1)), Err(Error::MissingJustification));
}

#[test]
fn state_with_a_bad_justification_is_refused_by_the_verifier() {
    let (mut handler, _) = handler(90, 900);
    let action = handler.handle_state(State::new(bad_justification(100)), peer(1));
    assert_eq!(action, Err(Error::Verifier("empty certificate")));
    assert_eq!(handler.block_state(&id(100)), Interest::Uninterested);
}

#[test]
fn state_too_far_ahead_is_too_new() {
    let (mut handler, _) = handler(90, 900);
    let action = handler.handle_state(state(90 + MAX_DEPTH + 1), peer(1));
    assert_eq!(action, Err(Error::Forest(ForestError::TooNew)));
}

#[test]
fn justification_extending_the_known_is_reported() {
    let (mut handler, _) = handler(100, 900);
    assert_eq!(handler.handle_justification(justification(101), Some(peer(1))), Ok(Some(id(101))));
    assert_eq!(handler.handle_justification(justification(103), Some(peer(1))), Ok(Some(id(103))));
    assert_eq!(handler.handle_justification(justification(102), Some(peer(1))), Ok(None));
    assert_eq!(handler.handle_justification(justification(103), None), Ok(None));
    assert_eq!(handler.handle_justification(justification(100), None), Ok(None));
    assert_eq!(handler.handle_justification(justification(7), None), Ok(None));
}

#[test]
fn bad_justification_is_an_error_and_changes_nothing() {
    let (mut handler, _) = handler(100, 900);
    assert_eq!(
        handler.handle_justification(bad_justification(101), Some(peer(1))),
        Err(Error::Verifier("empty certificate"))
    );
    assert_eq!(handler.block_state(&id(101)), Interest::Uninterested);
    assert_eq!(handler.frontier(), id(100));
}

#[test]
fn frontier_never_moves_down() {
    let (mut handler, shared) = handler(100, 900);
    let mut last = handler.frontier().number;
    let arrivals = [105u32, 101, 103, 101, 50, 102, 104, 100, 105];
    for number in arrivals {
        let _ = handler.block_imported(header(101));
        let _ = handler.block_imported(header(102));
        let _ = handler.block_imported(header(103));
        let _ = handler.handle_justification(justification(number), Some(peer(2)));
        let now = handler.frontier().number;
        assert!(now >= last);
        last = now;
    }
    assert_eq!(handler.frontier(), id(103));
    assert_eq!(shared.0.borrow().finalized, vec![id(101), id(102), id(103)]);
}

#[test]
fn imported_and_justified_blocks_are_finalized_in_order() {
    let (mut handler, shared) = handler(100, 900);
    assert_eq!(handler.handle_justification(justification(101), None), Ok(Some(id(101))));
    assert_eq!(handler.handle_justification(justification(102), None), Ok(Some(id(102))));
    assert_eq!(shared.0.borrow().finalized, vec![]);
    assert_eq!(handler.block_imported(header(101)), Ok(()));
    assert_eq!(shared.0.borrow().finalized, vec![id(101)]);
    assert_eq!(handler.frontier(), id(101));
    assert_eq!(handler.block_imported(header(102)), Ok(()));
    assert_eq!(shared.0.borrow().finalized, vec![id(101), id(102)]);
    assert_eq!(handler.frontier(), id(102));
    assert_eq!(handler.block_state(&id(102)), Interest::Uninterested);
    assert_eq!(handler.block_state(&id(101)), Interest::Uninterested);
}

#[test]
fn session_end_is_finalized_past_unjustified_blocks() {
    let (mut handler, shared) = handler(5, 10);
    for number in 6..=9 {
        assert_eq!(handler.block_imported(header(number)), Ok(()));
    }
    assert_eq!(handler.handle_justification(justification(9), None), Ok(Some(id(9))));
    assert_eq!(shared.0.borrow().finalized, vec![id(9)]);
    assert_eq!(handler.frontier(), id(9));
}

#[test]
fn block_in_mid_session_waits_for_its_predecessors() {
    let (mut handler, shared) = handler(5, 10);
    for number in 6..=8 {
        assert_eq!(handler.block_imported(header(number)), Ok(()));
    }
    assert_eq!(handler.handle_justification(justification(8), None), Ok(Some(id(8))));
    assert_eq!(shared.0.borrow().finalized, vec![]);
    assert_eq!(handler.handle_justification(justification(6), None), Ok(None));
    assert_eq!(shared.0.borrow().finalized, vec![id(6)]);
    assert_eq!(handler.handle_justification(justification(7), None), Ok(None));
    assert_eq!(shared.0.borrow().finalized, vec![id(6), id(7), id(8)]);
}

#[test]
fn failing_finalizer_is_reported() {
    let (mut handler, shared) = handler(100, 900);
    assert_eq!(handler.block_imported(header(101)), Ok(()));
    shared.0.borrow_mut().finalizer_broken = true;
    assert_eq!(
        handler.handle_justification(justification(101), None),
        Err(Error::Finalizer("finalizer is broken"))
    );
}

#[test]
fn import_with_unknown_parent_is_refused() {
    let (mut handler, _) = handler(100, 900);
    assert_eq!(
        handler.block_imported(header(105)),
        Err(Error::Forest(ForestError::IncorrectParentState))
    );
}

#[test]
fn no_interest_at_or_below_the_frontier() {
    let (mut handler, _) = handler(100, 900);
    let _ = handler.handle_justification(justification(100), Some(peer(1)));
    let _ = handler.handle_justification(justification(40), Some(peer(1)));
    let _ = handler.handle_internal_request(&id(99));
    for number in [0u32, 1, 40, 99, 100] {
        assert_eq!(handler.block_state(&id(number)), Interest::Uninterested);
    }
}

#[test]
fn internal_request_gives_a_task_once() {
    let (mut handler, _) = handler(100, 900);
    assert_eq!(handler.handle_internal_request(&id(105)), Ok(SyncAction::Task(id(105))));
    assert_eq!(handler.handle_internal_request(&id(105)), Ok(SyncAction::Noop));
    assert_eq!(handler.handle_internal_request(&id(100)), Ok(SyncAction::Noop));
    assert_eq!(
        handler.handle_internal_request(&id(100 + MAX_DEPTH + 1)),
        Err(Error::Forest(ForestError::TooNew))
    );
    assert_eq!(
        handler.block_state(&id(105)),
        Interest::TopRequired {
            know_most: vec![],
            branch_knowledge: BranchKnowledge::LowestId(id(105)),
        }
    );
}

fn justifications(from: u32, to: u32) -> Vec<Justification> {
    (from..=to).map(justification).collect()
}

#[test]
fn request_is_answered_with_the_missing_justifications_only() {
    let (mut handler, _) = handler(60, 900);
    let request = Request::new(id(50), BranchKnowledge::TopImported(id(40)), state(40));
    assert_eq!(
        handler.handle_request(request),
        Ok(SyncAction::Response(NetworkData::RequestResponse(state(60), justifications(41, 50))))
    );
}

#[test]
fn request_with_lowest_id_is_answered_from_that_block_on() {
    let (mut handler, _) = handler(60, 900);
    let request = Request::new(id(50), BranchKnowledge::LowestId(id(45)), state(40));
    assert_eq!(
        handler.handle_request(request),
        Ok(SyncAction::Response(NetworkData::RequestResponse(state(60), justifications(45, 50))))
    );
}

#[test]
fn request_above_our_top_is_answered_up_to_our_top() {
    let (mut handler, shared) = handler(60, 900);
    shared.0.borrow_mut().imported_above = vec![61, 62, 63];
    let request = Request::new(id(63), BranchKnowledge::TopImported(id(58)), state(58));
    assert_eq!(
        handler.handle_request(request),
        Ok(SyncAction::Response(NetworkData::RequestResponse(state(60), justifications(59, 60))))
    );
}

#[test]
fn request_skips_blocks_without_justification() {
    let (mut handler, shared) = handler(60, 900);
    shared.0.borrow_mut().unjustified = vec![43, 44];
    let request = Request::new(id(46), BranchKnowledge::TopImported(id(41)), state(41));
    assert_eq!(
        handler.handle_request(request),
        Ok(SyncAction::Response(NetworkData::RequestResponse(
            state(60),
            vec![justification(42), justification(45), justification(46)],
        )))
    );
}

#[test]
fn request_for_what_the_requester_has_gives_nothing() {
    let (mut handler, _) = handler(60, 900);
    let request = Request::new(id(50), BranchKnowledge::TopImported(id(50)), state(50));
    assert_eq!(handler.handle_request(request), Ok(SyncAction::Noop));
    let request = Request::new(id(50), BranchKnowledge::TopImported(id(55)), state(55));
    assert_eq!(handler.handle_request(request), Ok(SyncAction::Noop));
}

#[test]
fn request_for_an_unknown_block_gives_nothing() {
    let (mut handler, _) = handler(60, 900);
    let request = Request::new(id(70), BranchKnowledge::TopImported(id(40)), state(40));
    assert_eq!(handler.handle_request(request), Ok(SyncAction::Noop));
    let stranger = BlockId::new(BlockHash { high: 9, low: 9 }, 50);
    let request = Request::new(stranger, BranchKnowledge::TopImported(id(40)), state(40));
    assert_eq!(handler.handle_request(request), Ok(SyncAction::Noop));
}

#[test]
fn request_with_unknown_branch_knowledge_gives_nothing() {
    let (mut handler, _) = handler(60, 900);
    let stranger = BlockId::new(BlockHash { high: 9, low: 9 }, 40);
    let request = Request::new(id(50), BranchKnowledge::TopImported(stranger), state(40));
    assert_eq!(handler.handle_request(request), Ok(SyncAction::Noop));
}

#[test]
fn request_below_the_horizon_fails() {
    let (mut handler, _) = handler(MAX_DEPTH + 100, 900);
    let request = Request::new(id(99), BranchKnowledge::TopImported(id(90)), state(90));
    assert_eq!(handler.handle_request(request), Err(Error::BelowHorizon));
    let request = Request::new(id(500), BranchKnowledge::TopImported(id(99)), state(99));
    assert_eq!(handler.handle_request(request), Err(Error::BelowHorizon));
    let request = Request::new(id(102), BranchKnowledge::TopImported(id(100)), state(100));
    assert_eq!(
        handler.handle_request(request),
        Ok(SyncAction::Response(NetworkData::RequestResponse(
            state(MAX_DEPTH + 100),
            justifications(101, 102),
        )))
    );
}

#[test]
fn request_fails_with_a_broken_chain() {
    let (mut handler, shared) = handler(60, 900);
    shared.0.borrow_mut().broken = true;
    let request = Request::new(id(50), BranchKnowledge::TopImported(id(40)), state(40));
    assert_eq!(handler.handle_request(request), Err(Error::ChainStatus("chain is broken")));
}

#[test]
fn response_never_holds_what_the_requester_has() {
    let (mut handler, _) = handler(200, 900);
    for covered in [0u32, 10, 99, 100, 150, 199] {
        for target in [1u32, 50, 100, 101, 180, 200] {
            let knowledge = BranchKnowledge::TopImported(id(covered));
            let request = Request::new(id(target), knowledge, state(covered));
            match handler.handle_request(request) {
                Ok(SyncAction::Response(NetworkData::RequestResponse(_, sent))) => {
                    assert!(target > covered);
                    assert_eq!(sent, justifications(covered + 1, target));
                }
                Ok(SyncAction::Noop) => assert!(target <= covered),
                other => panic!("unexpected {:?}", other),
            }
        }
    }
}

#[test]
fn refresh_forgets_everything_above_the_top() {
    let (mut handler, shared) = handler(100, 900);
    assert_eq!(handler.handle_justification(justification(105), Some(peer(1))), Ok(Some(id(105))));
    shared.0.borrow_mut().top = 102;
    assert_eq!(handler.refresh_forest(), Ok(()));
    assert_eq!(handler.frontier(), id(102));
    assert_eq!(handler.block_state(&id(105)), Interest::Uninterested);
    assert_eq!(handler.handle_justification(justification(105), Some(peer(1))), Ok(Some(id(105))));
}

#[test]
fn refresh_with_a_broken_chain_keeps_the_forest() {
    let (mut handler, shared) = handler(100, 900);
    assert_eq!(handler.handle_justification(justification(105), Some(peer(1))), Ok(Some(id(105))));
    shared.0.borrow_mut().broken = true;
    assert_eq!(handler.refresh_forest(), Err(Error::ChainStatus("chain is broken")));
    assert_eq!(
        handler.block_state(&id(105)),
        Interest::HighestJustified {
            know_most: vec![peer(1)],
            branch_knowledge: BranchKnowledge::LowestId(id(105)),
        }
    );
}

#[test]
fn finalized_justification_is_accepted_again_without_finalizing_again() {
    let (mut handler, shared) = handler(100, 900);
    assert_eq!(handler.block_imported(header(101)), Ok(()));
    assert_eq!(handler.handle_justification(justification(101), Some(peer(1))), Ok(Some(id(101))));
    assert_eq!(shared.0.borrow().finalized, vec![id(101)]);
    assert_eq!(handler.handle_justification(justification(101), Some(peer(1))), Ok(None));
    assert_eq!(handler.handle_justification(justification(101), Some(peer(2))), Ok(None));
    assert_eq!(shared.0.borrow().finalized, vec![id(101)]);
    assert_eq!(handler.frontier(), id(101));
}

#[test]
fn node_at_genesis_announces_the_genesis_justification() {
    let (mut handler, _) = handler(0, 900);
    assert_eq!(handler.frontier(), id(0));
    assert_eq!(
        handler.state().ok(),
        Some(State::new(Justification::genesis_justification(header(0))))
    );
    assert_eq!(handler.handle_state(state(0), peer(1)), Ok(SyncAction::Noop));
    assert_eq!(handler.handle_state(state(1), peer(1)), Ok(SyncAction::Task(id(1))));
    assert_eq!(handler.block_imported(header(1)), Ok(()));
    assert_eq!(handler.frontier(), id(1));
}

#[test]
fn finalization_stops_at_the_last_height() {
    let (mut handler, shared) = handler(u32::MAX - 1, 900);
    assert_eq!(handler.block_imported(header(u32::MAX)), Ok(()));
    assert_eq!(
        handler.handle_justification(justification(u32::MAX), None),
        Ok(Some(id(u32::MAX)))
    );
    assert_eq!(handler.frontier(), id(u32::MAX));
    assert_eq!(shared.0.borrow().finalized, vec![id(u32::MAX)]);
    assert_eq!(handler.handle_justification(justification(u32::MAX), None), Ok(None));
    assert_eq!(handler.block_state(&id(u32::MAX)), Interest::Uninterested);
}

#[test]
fn sessions_of_one_block_finalize_block_by_block() {
    let (mut handler, shared) = handler(3, 1);
    assert_eq!(handler.block_imported(header(4)), Ok(()));
    assert_eq!(handler.block_imported(header(5)), Ok(()));
    assert_eq!(handler.handle_justification(justification(5), None), Ok(Some(id(5))));
    assert_eq!(shared.0.borrow().finalized, vec![]);
    assert_eq!(handler.handle_justification(justification(4), None), Ok(None));
    assert_eq!(shared.0.borrow().finalized, vec![id(4), id(5)]);
    assert_eq!(
        handler.handle_state(state(2), peer(1)),
        Ok(SyncAction::Response(NetworkData::StateBroadcastResponse(
            justification(2),
            Some(justification(3)),
        )))
    );
}
