use std::cell::RefCell;
use std::rc::Rc;

use finality_selendra::block::{BlockHash, BlockId, Header, PeerId};
use finality_selendra::data::{BranchKnowledge, NetworkData, Request, State};
use finality_selendra::forest::Interest;
use finality_selendra::handler::{ChainStatus, Error, Finalizer, SyncAction, Verifier};
use finality_selendra::justification::{Justification, SelendraJustification};
use finality_selendra::policy::{BlockStatus, FinalizationStatus};
use finality_selendra::service::{
    ChainStatusNotification, Event, Outbound, Service, StallDetector, BACKUP_REQUEST_DELAY,
    BROADCAST_COOLDOWN, BROADCAST_PERIOD, DELAYED_REQUEST_DELAY, FINALIZATION_STALL_CHECK_PERIOD,
    REQUEST_DELAY,
};
use finality_selendra::session::SessionPeriod;
use finality_selendra::task_queue::ScheduledTask;

fn hash(number: u32) -> BlockHash {
    BlockHash { high: 1, low: number as u128 }
}

fn id(number: u32) -> BlockId {
    BlockId::new(hash(number), number)
}

fn header(number: u32) -> Header {
    Header::new(hash(number), hash(number.wrapping_sub(1)), number, vec![number as u8, 0xee])
}

fn justification(number: u32) -> Justification {
    Justification::selendra_justification(
        header(number),
        SelendraJustification { certificate: vec![(number % 251) as u8, 42] },
    )
}

fn bad_justification(number: u32) -> Justification {
    Justification::selendra_justification(
        header(number),
        SelendraJustification { certificate: vec![] },
    )
}

fn peer(index: u64) -> PeerId {
    PeerId { index }
}

fn state(number: u32) -> State {
    State::new(justification(number))
}

fn task(number: u32, scheduled_time: u64) -> ScheduledTask {
    ScheduledTask { task: id(number), scheduled_time }
}

struct Chain {
    top: u32,
    broken: bool,
}

#[derive(Clone)]
struct Shared(Rc<RefCell<Chain>>);

impl ChainStatus for Shared {
    type Error = &'static str;

    fn top_finalized(&self) -> Result<Justification, Self::Error> {
        let chain = self.0.borrow();
        if chain.broken {
            return Err("chain is broken");
        }
        Ok(justification(chain.top))
    }

    fn block_status(&self, id: &BlockId) -> Result<BlockStatus, Self::Error> {
        let chain = self.0.borrow();
        if id.number <= chain.top && id.hash == hash(id.number) {
            Ok(BlockStatus::Imported)
        } else {
            Ok(BlockStatus::Unknown)
        }
    }

    fn finalized_at(&self, number: u32) -> Result<FinalizationStatus, Self::Error> {
        let chain = self.0.borrow();
        if number > chain.top {
            Ok(FinalizationStatus::NotFinalized)
        } else {
            Ok(FinalizationStatus::FinalizedWithJustification(justification(number)))
        }
    }
}

struct Checker;

impl Verifier for Checker {
    type Error = &'static str;

    fn verify(&self, justification: Justification) -> Result<Justification, Self::Error> {
        if justification == bad_justification(justification.id().number) {
            Err("empty certificate")
        } else {
            Ok(justification)
        }
    }
}

impl Finalizer for Shared {
    type Error = &'static str;

    fn finalize(&self, id: BlockId, _justification: Justification) -> Result<(), Self::Error> {
        self.0.borrow_mut().top = id.number;
        Ok(())
    }
}

type TestService = Service<Shared, Checker, Shared>;

fn service(now: u64, top: u32) -> (TestService, Shared) {
    let shared = Shared(Rc::new(RefCell::new(Chain { top, broken: false })));
    let service = Service::new(now, shared.clone(), Checker, shared.clone(), SessionPeriod(900))
        .ok()
        .expect("chain answers");
    (service, shared)
}

#[test]
fn protocol_constants() {
    assert_eq!(BROADCAST_PERIOD, 1_000);
    assert_eq!(BROADCAST_COOLDOWN, 200);
    assert_eq!(REQUEST_DELAY, 0);
    assert_eq!(DELAYED_REQUEST_DELAY, 500);
    assert_eq!(BACKUP_REQUEST_DELAY, 5_000);
    assert_eq!(FINALIZATION_STALL_CHECK_PERIOD, 30_000);
}

#[test]
fn new_service_has_no_tasks() {
    let (service, _) = service(0, 100);
    assert_eq!(service.scheduled_tasks(), vec![]);
    assert_eq!(service.next_task_time(), None);
    assert_eq!(service.frontier(), id(100));
    assert_eq!(service.time_to_broadcast(0), 1_000);
}

#[test]
fn peer_ahead_while_forest_is_empty_gives_a_task() {
    let (mut service, _) = service(0, 90);
    let outbound = service.handle_network_data(700, NetworkData::StateBroadcast(state(100)), peer(1)).0;
    assert_eq!(outbound, vec![]);
    assert_eq!(service.scheduled_tasks(), vec![task(100, 700)]);
}

#[test]
fn same_state_twice_schedules_one_request() {
    let (mut service, _) = service(0, 90);
    let first = service.handle_state(700, state(100), peer(1)).ok().flatten();
    let second = service.handle_state(710, state(100), peer(1)).ok().flatten();
    assert_eq!(first, None);
    assert_eq!(second, None);
    assert_eq!(service.scheduled_tasks(), vec![task(100, 700)]);
}

#[test]
fn peer_behind_gets_a_response() {
    let (mut service, _) = service(0, 90);
    let outbound = service.handle_network_data(700, NetworkData::StateBroadcast(state(80)), peer(1)).0;
    assert_eq!(
        outbound,
        vec![Outbound::SendTo(
            NetworkData::StateBroadcastResponse(justification(90), None),
            peer(1)
        )]
    );
    assert_eq!(service.scheduled_tasks(), vec![]);
}

#[test]
fn batch_of_three_requests_the_last_at_once_and_backs_up_the_others() {
    let (mut service, _) = service(0, 100);
    let batch = vec![justification(101), justification(102), justification(103)];
    let outbound =
        service.handle_network_data(1_000, NetworkData::RequestResponse(state(103), batch), peer(4)).0;
    assert_eq!(outbound, vec![]);
    assert_eq!(
        service.scheduled_tasks(),
        vec![task(103, 1_000), task(101, 6_000), task(102, 6_000)]
    );
}

#[test]
fn batch_cut_short_by_an_error_drops_the_pending_request() {
    let (mut service, _) = service(0, 100);
    let batch = vec![
        justification(101),
        justification(102),
        bad_justification(103),
        justification(104),
    ];
    let _ = service.handle_justifications(1_000, batch, Some(peer(4)));
    assert_eq!(service.scheduled_tasks(), vec![task(101, 6_000)]);
    assert_eq!(service.block_state(&id(104)), Interest::Uninterested);
}

#[test]
fn batch_without_news_schedules_nothing() {
    let (mut service, _) = service(0, 100);
    let _ = service.handle_justifications(1_000, vec![justification(99), justification(100)], None);
    assert_eq!(service.scheduled_tasks(), vec![]);
    let _ = service.handle_justifications(1_000, vec![], None);
    assert_eq!(service.scheduled_tasks(), vec![]);
}

#[test]
fn state_broadcast_response_is_handled_as_a_batch() {
    let (mut service, _) = service(0, 100);
    let data = NetworkData::StateBroadcastResponse(justification(101), Some(justification(105)));
    assert_eq!(service.handle_network_data(50, data, peer(2)).0, vec![]);
    assert_eq!(service.scheduled_tasks(), vec![task(105, 50), task(101, 5_050)]);
    let data = NetworkData::StateBroadcastResponse(justification(107), None);
    assert_eq!(service.handle_network_data(60, data, peer(2)).0, vec![]);
    assert_eq!(
        service.scheduled_tasks(),
        vec![task(105, 50), task(107, 60), task(101, 5_050)]
    );
}

#[test]
fn justification_from_the_user_is_handled() {
    let (mut service, _) = service(0, 100);
    assert_eq!(service.handle_event(5, Event::JustificationFromUser(justification(101))).0, vec![]);
    assert_eq!(
        service.handle_event(6, Event::AdditionalJustificationFromUser(justification(102))).0,
        vec![]
    );
    assert_eq!(service.scheduled_tasks(), vec![task(101, 5), task(102, 6)]);
    assert_eq!(
        service.block_state(&id(102)),
        Interest::HighestJustified {
            know_most: vec![],
            branch_knowledge: BranchKnowledge::TopImported(id(100)),
        }
    );
}

#[test]
fn task_for_the_highest_justified_is_retried_after_half_a_second() {
    let (mut service, _) = service(0, 100);
    let _ = service.handle_justifications(1_000, vec![justification(103)], Some(peer(4)));
    let outbound = service.handle_event(1_000, Event::Task).0;
    let request = Request::new(id(103), BranchKnowledge::LowestId(id(103)), state(100));
    assert_eq!(
        outbound,
        vec![Outbound::SendToRandom(NetworkData::Request(request), vec![peer(4)])]
    );
    assert_eq!(service.scheduled_tasks(), vec![task(103, 1_500)]);
}

#[test]
fn task_for_a_required_block_is_retried_after_five_seconds() {
    let (mut service, _) = service(0, 100);
    let _ = service.handle_justifications(
        1_000,
        vec![justification(101), justification(103)],
        Some(peer(4)),
    );
    assert_eq!(service.scheduled_tasks(), vec![task(103, 1_000), task(101, 6_000)]);
    let outbound = service.handle_task(2_000, id(101)).ok().flatten();
    let request = Request::new(id(101), BranchKnowledge::TopImported(id(100)), state(100));
    assert_eq!(
        outbound,
        Some(Outbound::SendToRandom(NetworkData::Request(request), vec![peer(4)]))
    );
    assert_eq!(
        service.scheduled_tasks(),
        vec![task(103, 1_000), task(101, 6_000), task(101, 7_000)]
    );
}

#[test]
fn task_for_the_top_required_block_is_retried_after_half_a_second() {
    let (mut service, _) = service(0, 100);
    let _ = service.handle_justifications(
        1_000,
        vec![justification(101), justification(103)],
        Some(peer(4)),
    );
    assert_eq!(
        service.block_state(&id(103)),
        Interest::HighestJustified {
            know_most: vec![peer(4)],
            branch_knowledge: BranchKnowledge::LowestId(id(103)),
        }
    );
    let _ = service.handle_chain_event(1_100, ChainStatusNotification::BlockImported(header(101))).ok().flatten();
    let _ = service.handle_task(3_000, id(103)).ok().flatten();
    assert_eq!(
        service.scheduled_tasks(),
        vec![task(103, 1_000), task(103, 3_500), task(101, 6_000)]
    );
}

#[test]
fn task_for_a_block_of_no_interest_is_dropped() {
    let (mut service, _) = service(0, 100);
    service.request(10, id(100));
    service.request(10, id(150));
    assert_eq!(service.handle_event(10, Event::Task).0, vec![]);
    assert_eq!(service.handle_event(10, Event::Task).0, vec![]);
    assert_eq!(service.scheduled_tasks(), vec![]);
}

#[test]
fn task_that_is_not_due_stays() {
    let (mut service, _) = service(0, 100);
    let _ = service.handle_justifications(1_000, vec![justification(103)], Some(peer(4)));
    assert_eq!(service.next_task_time(), Some(1_000));
    assert_eq!(service.handle_event(999, Event::Task).0, vec![]);
    assert_eq!(service.scheduled_tasks(), vec![task(103, 1_000)]);
}

#[test]
fn request_cadence_is_exact() {
    let (mut service, _) = service(0, 100);
    service.request(40, id(1));
    service.delayed_request(40, id(2));
    service.backup_request(40, id(3));
    assert_eq!(service.scheduled_tasks(), vec![task(1, 40), task(2, 540), task(3, 5_040)]);
}

#[test]
fn perform_sync_action_sends_responses_and_schedules_tasks() {
    let (mut service, _) = service(0, 100);
    let data = NetworkData::StateBroadcastResponse(justification(100), None);
    assert_eq!(
        service.perform_sync_action(5, SyncAction::Response(data), peer(3)),
        Some(Outbound::SendTo(
            NetworkData::StateBroadcastResponse(justification(100), None),
            peer(3)
        ))
    );
    assert_eq!(service.perform_sync_action(5, SyncAction::Noop, peer(3)), None);
    assert_eq!(service.scheduled_tasks(), vec![]);
    assert_eq!(service.perform_sync_action(5, SyncAction::Task(id(104)), peer(3)), None);
    assert_eq!(service.scheduled_tasks(), vec![task(104, 5)]);
}

#[test]
fn request_is_answered_and_the_state_in_it_is_handled() {
    let (mut service, _) = service(0, 60);
    let request = Request::new(id(50), BranchKnowledge::TopImported(id(40)), state(40));
    let outbound = service.handle_network_data(9, NetworkData::Request(request), peer(2)).0;
    let bridge: Vec<Justification> = (41..=50).map(justification).collect();
    assert_eq!(
        outbound,
        vec![
            Outbound::SendTo(NetworkData::RequestResponse(state(60), bridge), peer(2)),
            Outbound::SendTo(
                NetworkData::StateBroadcastResponse(justification(60), None),
                peer(2)
            ),
        ]
    );
}

#[test]
fn broadcast_goes_out_once_per_period() {
    let (mut service, _) = service(0, 100);
    assert_eq!(service.handle_event(999, Event::BroadcastTick).0, vec![]);
    assert_eq!(service.time_to_broadcast(999), 1);
    assert_eq!(
        service.handle_event(1_000, Event::BroadcastTick).0,
        vec![Outbound::Broadcast(NetworkData::StateBroadcast(state(100)))]
    );
    assert_eq!(service.handle_event(1_001, Event::BroadcastTick).0, vec![]);
    assert_eq!(service.time_to_broadcast(1_001), 999);
}

#[test]
fn finalized_block_brings_the_broadcast_forward_after_the_cooldown() {
    let (mut service, shared) = service(0, 100);
    shared.0.borrow_mut().top = 101;
    let event = || ChainStatusNotification::BlockFinalized(header(101));
    assert_eq!(service.handle_chain_event(199, event()).ok().flatten(), None);
    assert_eq!(service.time_to_broadcast(199), 1);
    assert_eq!(
        service.handle_chain_event(200, event()).ok().flatten(),
        Some(Outbound::Broadcast(NetworkData::StateBroadcast(state(101))))
    );
    assert_eq!(service.handle_chain_event(399, event()).ok().flatten(), None);
    assert_eq!(
        service.handle_event(400, Event::BroadcastTick).0,
        vec![Outbound::Broadcast(NetworkData::StateBroadcast(state(101)))]
    );
}

#[test]
fn nothing_is_broadcast_while_the_chain_is_broken() {
    let (mut service, shared) = service(0, 100);
    shared.0.borrow_mut().broken = true;
    assert_eq!(service.broadcast().ok(), None);
    assert_eq!(service.handle_event(1_000, Event::BroadcastTick).0, vec![]);
    assert_eq!(service.send_request_for(id(101), BranchKnowledge::LowestId(id(101)), vec![]).ok(), None);
}

#[test]
fn imported_block_reaches_the_forest() {
    let (mut service, shared) = service(0, 100);
    let _ = service.handle_justifications(0, vec![justification(101)], None);
    let event = Event::Chain(ChainStatusNotification::BlockImported(header(101)));
    assert_eq!(service.handle_event(10, event).0, vec![]);
    assert_eq!(service.frontier(), id(101));
    assert_eq!(shared.0.borrow().top, 101);
}

#[test]
fn stall_detector_compares_with_the_last_check() {
    let mut detector = StallDetector::new();
    assert!(detector.check(0));
    assert!(!detector.check(100));
    assert!(detector.check(100));
    assert!(detector.check(100));
    assert!(!detector.check(101));
    assert!(!detector.check(100));
    assert_eq!(detector.last_top_number, 100);
}

#[test]
fn stall_rebuilds_the_forest_once_per_check() {
    let (mut service, shared) = service(0, 100);
    let _ = service.handle_justifications(0, vec![justification(105)], Some(peer(1)));
    assert!(!service.handle_stall_check().0);
    assert_ne!(service.block_state(&id(105)), Interest::Uninterested);
    assert!(service.handle_stall_check().0);
    assert_eq!(service.block_state(&id(105)), Interest::Uninterested);
    let _ = service.handle_justifications(0, vec![justification(106)], Some(peer(1)));
    shared.0.borrow_mut().top = 101;
    assert!(!service.handle_stall_check().0);
    assert_ne!(service.block_state(&id(106)), Interest::Uninterested);
    assert_eq!(service.frontier(), id(100));
    assert!(service.handle_stall_check().0);
    assert_eq!(service.frontier(), id(101));
    assert_eq!(service.block_state(&id(106)), Interest::Uninterested);
}

#[test]
fn stall_check_with_a_broken_chain_does_nothing() {
    let (mut service, shared) = service(0, 0);
    shared.0.borrow_mut().broken = true;
    assert_eq!(service.handle_event(30_000, Event::StallCheck).0, vec![]);
    assert!(!service.handle_stall_check().0);
    shared.0.borrow_mut().broken = false;
    assert!(service.handle_stall_check().0);
}

#[test]
fn block_request_from_the_user_is_scheduled_once() {
    let (mut service, _) = service(0, 100);
    assert_eq!(service.handle_event(20, Event::BlockRequest(id(104))).0, vec![]);
    assert_eq!(service.scheduled_tasks(), vec![task(104, 20)]);
    assert_eq!(service.handle_event(30, Event::BlockRequest(id(104))).0, vec![]);
    assert_eq!(service.scheduled_tasks(), vec![task(104, 20)]);
    let _ = service.handle_block_request(40, id(100));
    let _ = service.handle_block_request(40, id(100_000));
    assert_eq!(service.scheduled_tasks(), vec![task(104, 20)]);
    let outbound = service.handle_event(20, Event::Task).0;
    let request = Request::new(id(104), BranchKnowledge::LowestId(id(104)), state(100));
    assert_eq!(outbound, vec![Outbound::SendToRandom(NetworkData::Request(request), vec![])]);
    assert_eq!(service.scheduled_tasks(), vec![task(104, 520)]);
}

#[test]
fn failure_that_cuts_a_batch_short_is_handed_back() {
    let (mut service, _) = service(0, 100);
    let batch = vec![justification(101), bad_justification(102), justification(103)];
    assert_eq!(
        service.handle_justifications(1_000, batch, Some(peer(4))),
        Err(Error::Verifier("empty certificate"))
    );
    assert_eq!(service.scheduled_tasks(), vec![]);
    assert_eq!(service.block_state(&id(103)), Interest::Uninterested);
    assert_eq!(service.handle_justifications(1_000, vec![justification(103)], None), Ok(()));
}

#[test]
fn failures_of_the_handler_are_handed_back() {
    let (mut service, shared) = service(0, 100);
    assert_eq!(
        service.handle_state(5, State::new(bad_justification(105)), peer(1)),
        Err(Error::Verifier("empty certificate"))
    );
    let event = Event::Network(NetworkData::StateBroadcast(State::new(bad_justification(105))), peer(1));
    assert_eq!(service.handle_event(5, event), (vec![], vec![Error::Verifier("empty certificate")]));
    shared.0.borrow_mut().broken = true;
    assert_eq!(service.broadcast(), Err(Error::ChainStatus("chain is broken")));
    assert_eq!(
        service.handle_event(1_000, Event::BroadcastTick),
        (vec![], vec![Error::ChainStatus("chain is broken")])
    );
    assert_eq!(service.handle_stall_check(), (false, Some(Error::ChainStatus("chain is broken"))));
    let request = Request::new(id(50), BranchKnowledge::TopImported(id(40)), state(40));
    assert_eq!(
        service.handle_network_data(9, NetworkData::Request(request), peer(2)),
        (
            vec![],
            vec![Error::ChainStatus("chain is broken"), Error::ChainStatus("chain is broken")]
        )
    );
    assert_eq!(
        service.handle_block_request(9, id(1_000_000)),
        Err(Error::Forest(finality_selendra::forest_model::ForestError::TooNew))
    );
    assert_eq!(
        service.handle_chain_event(9, ChainStatusNotification::BlockImported(header(150))),
        Err(Error::Forest(finality_selendra::forest_model::ForestError::IncorrectParentState))
    );
}

#[test]
fn stall_with_a_chain_that_breaks_before_the_rebuilding_keeps_the_forest() {
    let (mut service, shared) = service(0, 100);
    assert_eq!(service.handle_stall_check(), (false, None));
    assert_eq!(service.handle_stall_check_at(100), (true, None));
    shared.0.borrow_mut().broken = true;
    let _ = service.handle_justifications(0, vec![justification(105)], Some(peer(1)));
    assert_eq!(
        service.handle_stall_check_at(100),
        (true, Some(Error::ChainStatus("chain is broken")))
    );
    assert_ne!(service.block_state(&id(105)), Interest::Uninterested);
}

#[test]
fn task_with_a_broken_chain_is_still_scheduled_again() {
    let (mut service, shared) = service(0, 100);
    let _ = service.handle_justifications(0, vec![justification(105)], Some(peer(1)));
    shared.0.borrow_mut().broken = true;
    assert_eq!(service.handle_task(10, id(105)), Err(Error::ChainStatus("chain is broken")));
    assert_eq!(service.scheduled_tasks(), vec![task(105, 0), task(105, 510)]);
}
