//! A queue of tasks, each due at an instant of its own.
//!
//! The queue hands its tasks out in the order of their instants, and tasks of
//! one instant in the order in which they were scheduled. It keeps every
//! schedule it is given: two schedules of one task are two entries.

use vstd::prelude::*;
use crate::block::BlockId;

verus! {

/// A task and the instant, in milliseconds, at which it is due.
#[derive(Clone, Copy, Debug, PartialEq, Eq, Structural)]
pub struct ScheduledTask {
    pub task: BlockId,
    pub scheduled_time: u64,
}

/// The instant `delay` after `now`, or the last instant there is.
pub open spec fn instant_after(now: u64, delay: u64) -> u64 {
    if now + delay > u64::MAX {
        u64::MAX
    } else {
        (now + delay) as u64
    }
}

/// Whether the entries stand in the order of their instants.
pub open spec fn in_time_order(queue: Seq<ScheduledTask>) -> bool {
    forall|i: int, j: int|
        0 <= i <= j < queue.len() ==> queue[i].scheduled_time <= queue[j].scheduled_time
}

/// Whether `position` parts the entries due at `time` or earlier from those due later.
pub open spec fn parts_at(queue: Seq<ScheduledTask>, time: u64, position: int) -> bool {
    &&& 0 <= position <= queue.len()
    &&& forall|i: int| 0 <= i < position ==> queue[i].scheduled_time <= time
    &&& forall|i: int| position <= i < queue.len() ==> queue[i].scheduled_time > time
}

/// The place at which a task due at `time` enters the queue: behind every
/// entry that is due no later.
pub open spec fn entry_position(queue: Seq<ScheduledTask>, time: u64) -> int {
    choose|position: int| parts_at(queue, time, position)
}

/// The queue with `task` scheduled at `time`.
pub open spec fn scheduled(queue: Seq<ScheduledTask>, task: BlockId, time: u64) -> Seq<
    ScheduledTask,
> {
    queue.insert(entry_position(queue, time), ScheduledTask { task, scheduled_time: time })
}

/// In a queue in time order exactly one position parts it at a given instant.
pub proof fn lemma_entry_position(queue: Seq<ScheduledTask>, time: u64, position: int)
    requires
        parts_at(queue, time, position),
    ensures
        entry_position(queue, time) == position,
{
    let chosen = entry_position(queue, time);
    assert(parts_at(queue, time, chosen));
    if chosen < position {
        assert(queue[chosen].scheduled_time <= time);
    } else if position < chosen {
        assert(queue[position].scheduled_time <= time);
    }
}

/// Scheduling keeps the time order, adds the one entry and keeps all others.
pub proof fn lemma_scheduled(queue: Seq<ScheduledTask>, task: BlockId, time: u64)
    requires
        in_time_order(queue),
    ensures
        parts_at(queue, time, entry_position(queue, time)),
        in_time_order(scheduled(queue, task, time)),
        scheduled(queue, task, time).len() == queue.len() + 1,
        scheduled(queue, task, time).to_multiset() == queue.to_multiset().insert(
            ScheduledTask { task, scheduled_time: time },
        ),
{
    lemma_position_exists(queue, time);
    let position = entry_position(queue, time);
    let entry = ScheduledTask { task, scheduled_time: time };
    let after = queue.insert(position, entry);
    assert forall|i: int, j: int| 0 <= i <= j < after.len() implies after[i].scheduled_time
        <= after[j].scheduled_time by {
        if i < position && j > position {
            assert(after[i] == queue[i]);
            assert(after[j] == queue[j - 1]);
        } else if i < position && j < position {
            assert(after[i] == queue[i]);
            assert(after[j] == queue[j]);
        } else if i > position {
            assert(after[i] == queue[i - 1]);
            assert(after[j] == queue[j - 1]);
        }
    }
    vstd::seq_lib::to_multiset_insert(queue, position, entry);
}

/// Every queue in time order has a position that parts it at a given instant.
pub proof fn lemma_position_exists(queue: Seq<ScheduledTask>, time: u64)
    requires
        in_time_order(queue),
    ensures
        parts_at(queue, time, entry_position(queue, time)),
    decreases queue.len(),
{
    if queue.len() == 0 {
        assert(parts_at(queue, time, 0));
    } else if queue.last().scheduled_time <= time {
        assert(parts_at(queue, time, queue.len() as int));
    } else {
        let front = queue.drop_last();
        assert(in_time_order(front));
        lemma_position_exists(front, time);
        let position = entry_position(front, time);
        assert forall|i: int| 0 <= i < position implies queue[i].scheduled_time <= time by {
            assert(front[i] == queue[i]);
        }
        assert forall|i: int| position <= i < queue.len() implies queue[i].scheduled_time
            > time by {
            if i < front.len() {
                assert(front[i] == queue[i]);
            }
        }
        assert(parts_at(queue, time, position));
    }
}

/// A delay-scheduled work queue.
#[derive(Debug)]
pub struct TaskQueue {
    queue: Vec<ScheduledTask>,
}

impl View for TaskQueue {
    type V = Seq<ScheduledTask>;

    closed spec fn view(&self) -> Seq<ScheduledTask> {
        self.queue@
    }
}

impl TaskQueue {
    /// The entries stand in the order of their instants.
    pub open spec fn wf(&self) -> bool {
        in_time_order(self@)
    }

    /// A queue with no tasks.
    pub fn new() -> (queue: Self)
        ensures
            queue.wf(),
            queue@ == Seq::<ScheduledTask>::empty(),
    {
        TaskQueue { queue: Vec::new() }
    }

    /// The number of entries.
    pub fn len(&self) -> (len: usize)
        ensures
            len == self@.len(),
    {
        self.queue.len()
    }

    /// The entries, in the order in which they are due.
    pub fn scheduled_tasks(&self) -> (tasks: Vec<ScheduledTask>)
        ensures
            tasks@ == self@,
    {
        let tasks = self.queue.clone();
        proof {
            assert(tasks@ =~= self.queue@);
        }
        tasks
    }

    /// Schedules `task` at the instant `delay` milliseconds after `now`.
    pub fn schedule_in(&mut self, task: BlockId, now: u64, delay: u64)
        requires
            old(self).wf(),
        ensures
            final(self).wf(),
            final(self)@ == scheduled(old(self)@, task, instant_after(now, delay)),
    {
        let time = now.saturating_add(delay);
        self.schedule_at(task, time);
    }

    /// Schedules `task` at `now`: it is due at once, behind what is already due.
    pub fn schedule_now(&mut self, task: BlockId, now: u64)
        requires
            old(self).wf(),
        ensures
            final(self).wf(),
            final(self)@ == scheduled(old(self)@, task, now),
    {
        self.schedule_at(task, now);
    }

    /// Schedules `task` at the instant `time`, behind every entry that is due
    /// at `time` or earlier.
    pub fn schedule_at(&mut self, task: BlockId, time: u64)
        requires
            old(self).wf(),
        ensures
            final(self).wf(),
            final(self)@ == scheduled(old(self)@, task, time),
    {
        let mut position: usize = self.queue.len();
        while position > 0 && self.queue[position - 1].scheduled_time > time
            invariant
                self.queue@ == old(self).queue@,
                in_time_order(self.queue@),
                0 <= position <= self.queue.len(),
                forall|i: int|
                    position <= i < self.queue.len() ==> self.queue@[i].scheduled_time > time,
            decreases position,
        {
            position = position - 1;
        }
        proof {
            assert(parts_at(self.queue@, time, position as int)) by {
                assert forall|i: int| 0 <= i < position implies self.queue@[i].scheduled_time
                    <= time by {
                    assert(self.queue@[i].scheduled_time <= self.queue@[position
                        - 1].scheduled_time);
                }
            }
            lemma_entry_position(self.queue@, time, position as int);
            lemma_scheduled(self.queue@, task, time);
        }
        self.queue.insert(position, ScheduledTask { task, scheduled_time: time });
    }

    /// The instant at which the earliest task is due, if there is a task.
    pub fn next_scheduled_time(&self) -> (time: Option<u64>)
        ensures
            time == if self@.len() == 0 {
                None
            } else {
                Some(self@[0].scheduled_time)
            },
    {
        if self.queue.len() == 0 {
            None
        } else {
            Some(self.queue[0].scheduled_time)
        }
    }

    /// Takes the earliest task out of the queue if it is due at `now`.
    pub fn pop(&mut self, now: u64) -> (task: Option<BlockId>)
        requires
            old(self).wf(),
        ensures
            final(self).wf(),
            old(self)@.len() > 0 && old(self)@[0].scheduled_time <= now ==> task == Some(
                old(self)@[0].task,
            ) && final(self)@ == old(self)@.drop_first(),
            old(self)@.len() == 0 || old(self)@[0].scheduled_time > now ==> task.is_none()
                && final(self)@ == old(self)@,
    {
        if self.queue.len() == 0 {
            return None;
        }
        if self.queue[0].scheduled_time > now {
            return None;
        }
        let first = self.queue.remove(0);
        proof {
            assert(self.queue@ =~= old(self).queue@.drop_first());
        }
        Some(first.task)
    }
}

/// The task that leaves a queue is due no later than any task that stays.
pub proof fn lemma_earliest_leaves_first(queue: Seq<ScheduledTask>, i: int)
    requires
        in_time_order(queue),
        0 <= i < queue.len(),
    ensures
        queue[0].scheduled_time <= queue[i].scheduled_time,
{
}

} // verus!
