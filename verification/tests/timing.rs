use finality_selendra::block::{BlockHash, BlockId};
use finality_selendra::task_queue::TaskQueue;
use finality_selendra::ticker::{Tick, Ticker};

fn id(number: u32) -> BlockId {
    BlockId::new(BlockHash { high: 0, low: number as u128 }, number)
}

#[test]
fn empty_queue_yields_nothing() {
    let mut queue = TaskQueue::new();
    assert_eq!(queue.len(), 0);
    assert_eq!(queue.next_scheduled_time(), None);
    assert_eq!(queue.pop(1_000_000), None);
}

#[test]
fn tasks_leave_in_time_order() {
    let mut queue = TaskQueue::new();
    queue.schedule_in(id(1), 100, 5_000);
    queue.schedule_in(id(2), 100, 0);
    queue.schedule_in(id(3), 100, 500);
    assert_eq!(queue.len(), 3);
    assert_eq!(queue.next_scheduled_time(), Some(100));
    assert_eq!(queue.pop(100), Some(id(2)));
    assert_eq!(queue.pop(100), None);
    assert_eq!(queue.next_scheduled_time(), Some(600));
    assert_eq!(queue.pop(599), None);
    assert_eq!(queue.pop(600), Some(id(3)));
    assert_eq!(queue.pop(10_000), Some(id(1)));
    assert_eq!(queue.pop(10_000), None);
}

#[test]
fn tasks_of_one_instant_leave_in_the_order_scheduled() {
    let mut queue = TaskQueue::new();
    queue.schedule_now(id(1), 50);
    queue.schedule_now(id(2), 50);
    queue.schedule_in(id(3), 40, 10);
    assert_eq!(queue.pop(50), Some(id(1)));
    assert_eq!(queue.pop(50), Some(id(2)));
    assert_eq!(queue.pop(50), Some(id(3)));
}

#[test]
fn same_task_scheduled_twice_is_kept_twice() {
    let mut queue = TaskQueue::new();
    queue.schedule_in(id(1), 0, 10);
    queue.schedule_in(id(1), 0, 10);
    assert_eq!(queue.len(), 2);
    assert_eq!(queue.pop(10), Some(id(1)));
    assert_eq!(queue.pop(10), Some(id(1)));
    assert_eq!(queue.pop(10), None);
}

#[test]
fn schedule_far_in_the_future_saturates() {
    let mut queue = TaskQueue::new();
    queue.schedule_in(id(1), u64::MAX - 5, 10);
    assert_eq!(queue.next_scheduled_time(), Some(u64::MAX));
    assert_eq!(queue.pop(u64::MAX - 1), None);
    assert_eq!(queue.pop(u64::MAX), Some(id(1)));
}

#[test]
fn try_tick_respects_the_cooldown() {
    let mut ticker = Ticker::new(0, 1_000, 200);
    assert!(!ticker.try_tick(0));
    assert!(!ticker.try_tick(199));
    assert!(ticker.try_tick(200));
    assert_eq!(ticker.last_reset(), 200);
    assert!(!ticker.try_tick(399));
    assert!(ticker.try_tick(400));
}

#[test]
fn wait_and_tick_fires_once_per_period() {
    let mut ticker = Ticker::new(0, 1_000, 200);
    assert_eq!(ticker.wait_and_tick(0), Tick::Wait(1_000));
    assert_eq!(ticker.wait_and_tick(999), Tick::Wait(1));
    assert_eq!(ticker.wait_and_tick(1_000), Tick::Fired);
    assert_eq!(ticker.last_reset(), 1_000);
    assert_eq!(ticker.wait_and_tick(1_500), Tick::Wait(500));
    assert_eq!(ticker.wait_and_tick(2_100), Tick::Fired);
}

#[test]
fn refused_try_tick_brings_the_next_tick_forward() {
    let mut ticker = Ticker::new(0, 1_000, 200);
    assert!(!ticker.try_tick(50));
    assert_eq!(ticker.wait_and_tick(50), Tick::Wait(150));
    assert_eq!(ticker.wait_and_tick(200), Tick::Fired);
    assert_eq!(ticker.wait_and_tick(200), Tick::Wait(1_000));
}

#[test]
fn granted_try_tick_restarts_the_period() {
    let mut ticker = Ticker::new(0, 1_000, 200);
    assert!(ticker.try_tick(700));
    assert_eq!(ticker.wait_and_tick(1_000), Tick::Wait(700));
    assert_eq!(ticker.wait_and_tick(1_700), Tick::Fired);
}

#[test]
fn period_below_cooldown_is_raised() {
    let mut ticker = Ticker::new(10, 100, 300);
    assert_eq!(ticker.wait_and_tick(10), Tick::Wait(300));
    assert_eq!(ticker.wait_and_tick(310), Tick::Fired);
}

#[test]
fn clock_reading_before_the_last_reset_counts_as_no_time() {
    let mut ticker = Ticker::new(1_000, 1_000, 200);
    assert!(!ticker.try_tick(500));
    assert_eq!(ticker.wait_and_tick(500), Tick::Wait(200));
}
