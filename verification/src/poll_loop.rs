//! Poll loop: the executor-resident control loop that requests work from
//! the scheduler, bounds concurrency by available task slots, dispatches
//! assigned tasks, and reports outcomes. The loop is a pure transition
//! function from state and scheduler event to next state and actions; the
//! surrounding process performs the actions (network calls, dispatching)
//! and feeds the next event back in.

use vstd::prelude::*;

use crate::executor::TaskOutcome;

verus! {

/// The work of computing one stage's one partition.
#[derive(Debug, Clone, Copy, PartialEq, Eq, Structural)]
pub struct TaskId {
    pub stage_id: usize,
    pub partition_id: usize,
}

/// What the poll loop asks its surroundings to do after a step.
#[derive(Debug)]
pub enum ExecutorAction {
    /// Ask the scheduler for work, reporting the free-slot count, so the
    /// scheduler never over-assigns.
    RequestWork { free_slots: usize },
    /// Publish the executor's identity; once, before the first request.
    Register,
    /// Hand one assigned task to a task executor running independently.
    Dispatch { task: TaskId },
    /// Report a task's outcome to the scheduler.
    Report { task: TaskId, outcome: TaskOutcome },
    /// Wait before retrying after a transient network failure.
    Backoff,
}

/// What the scheduler (or a finished task executor) tells the loop.
#[derive(Debug)]
pub enum SchedulerEvent {
    /// Registration was acknowledged.
    Registered,
    /// The scheduler assigned these tasks.
    Assigned { tasks: Vec<TaskId> },
    /// A dispatched task finished with this outcome.
    TaskFinished { task: TaskId, outcome: TaskOutcome },
    /// An explicit abort for one specific in-flight task.
    CancelRequested { task: TaskId },
    /// A request or report failed in transit; transient, retried.
    NetworkFailure,
}

/// Some entry of the list is the given task.
pub open spec fn contains_task(s: Seq<TaskId>, t: TaskId) -> bool {
    exists|i: int| 0 <= i < s.len() && s[i] == t
}

/// No task appears twice.
pub open spec fn unique_tasks(s: Seq<TaskId>) -> bool {
    forall|i: int, j: int| 0 <= i < j < s.len() ==> s[i] != s[j]
}

/// The running list after accepting, in order, each assigned task for
/// which a slot is free and which is not already running.
pub open spec fn accept_tasks(running: Seq<TaskId>, tasks: Seq<TaskId>, slots: int) -> Seq<TaskId>
    decreases tasks.len(),
{
    if tasks.len() == 0 {
        running
    } else {
        let pre = accept_tasks(running, tasks.drop_last(), slots);
        if pre.len() < slots && !contains_task(pre, tasks.last()) {
            pre.push(tasks.last())
        } else {
            pre
        }
    }
}

/// Accepting tasks never exceeds the slot count and keeps the list
/// duplicate-free.
pub proof fn lemma_accept_tasks_bounded(running: Seq<TaskId>, tasks: Seq<TaskId>, slots: int)
    requires
        running.len() <= slots,
        unique_tasks(running),
    ensures
        accept_tasks(running, tasks, slots).len() <= slots,
        accept_tasks(running, tasks, slots).len() >= running.len(),
        unique_tasks(accept_tasks(running, tasks, slots)),
        accept_tasks(running, tasks, slots).take(running.len() as int) == running,
    decreases tasks.len(),
{
    if tasks.len() == 0 {
        assert(accept_tasks(running, tasks, slots).take(running.len() as int) =~= running);
    } else {
        lemma_accept_tasks_bounded(running, tasks.drop_last(), slots);
        let pre = accept_tasks(running, tasks.drop_last(), slots);
        if pre.len() < slots && !contains_task(pre, tasks.last()) {
            assert(unique_tasks(pre.push(tasks.last()))) by {
                assert forall|i: int, j: int|
                    0 <= i < j < pre.push(tasks.last()).len() implies pre.push(tasks.last())[i]
                    != pre.push(tasks.last())[j] by {
                    if j < pre.len() {
                    } else {
                        assert(pre.push(tasks.last())[i] == pre[i]);
                        if pre[i] == tasks.last() {
                            assert(contains_task(pre, tasks.last()));
                        }
                    }
                }
            }
            assert(pre.push(tasks.last()).take(running.len() as int) =~= pre.take(
                running.len() as int,
            ));
        }
    }
}

/// The poll loop's state: the executor's concurrency capacity, whether
/// registration has been acknowledged, and the tasks now running.
#[derive(Debug)]
pub struct PollLoop {
    pub task_slots: usize,
    pub registered: bool,
    pub running: Vec<TaskId>,
}

impl PollLoop {
    /// The loop's invariant: never more tasks running than slots, and no
    /// task running twice.
    pub open spec fn wf(&self) -> bool {
        &&& self.running@.len() <= self.task_slots
        &&& unique_tasks(self.running@)
    }

    /// A fresh loop: nothing running, not yet registered.
    pub fn new(task_slots: usize) -> (r: PollLoop)
        ensures
            r.wf(),
            r.task_slots == task_slots,
            !r.registered,
            r.running@.len() == 0,
    {
        PollLoop { task_slots, registered: false, running: Vec::new() }
    }

    /// The given task stands in the running list.
    pub fn is_running(&self, task: TaskId) -> (r: bool)
        ensures
            r == contains_task(self.running@, task),
    {
        let mut i: usize = 0;
        while i < self.running.len()
            invariant
                i <= self.running@.len(),
                forall|j: int| 0 <= j < i ==> self.running@[j] != task,
            decreases self.running@.len() - i,
        {
            if self.running[i].stage_id == task.stage_id && self.running[i].partition_id
                == task.partition_id {
                return true;
            }
            i += 1;
        }
        false
    }

    /// What the loop should do next while idle: register first; then, as
    /// long as a slot is free, request work, reporting the free-slot count.
    pub fn next_request(&self) -> (r: Option<ExecutorAction>)
        ensures
            !self.registered ==> (r matches Some(a) && a matches ExecutorAction::Register),
            (self.registered && self.running@.len() < self.task_slots) ==> (r matches Some(a) && (
            a matches ExecutorAction::RequestWork { free_slots } && free_slots == self.task_slots
                - self.running@.len())),
            (self.registered && self.running@.len() >= self.task_slots) ==> r is None,
    {
        if !self.registered {
            Some(ExecutorAction::Register)
        } else if self.running.len() < self.task_slots {
            Some(ExecutorAction::RequestWork { free_slots: self.task_slots - self.running.len() })
        } else {
            None
        }
    }

    /// One transition of the loop. Whatever the event, the invariant
    /// holds afterwards: the number of running tasks never exceeds the
    /// slot count, not even transiently within a step.
    pub fn step(&mut self, event: SchedulerEvent) -> (actions: Vec<ExecutorAction>)
        requires
            old(self).wf(),
        ensures
            final(self).wf(),
            final(self).task_slots == old(self).task_slots,
            match event {
                SchedulerEvent::Registered => final(self).registered && final(self).running@
                    == old(self).running@ && actions@.len() == 0,
                SchedulerEvent::Assigned { tasks } => {
                    &&& final(self).registered == old(self).registered
                    &&& final(self).running@ == accept_tasks(
                        old(self).running@,
                        tasks@,
                        old(self).task_slots as int,
                    )
                    &&& actions@.len() == final(self).running@.len() - old(self).running@.len()
                    &&& forall|k: int|
                        0 <= k < actions@.len() ==> (#[trigger] actions@[k]
                            matches ExecutorAction::Dispatch { task } && task
                            == final(self).running@[old(self).running@.len() + k])
                },
                SchedulerEvent::TaskFinished { task, outcome } => {
                    &&& final(self).registered == old(self).registered
                    &&& if contains_task(old(self).running@, task) {
                        &&& final(self).running@.len() == old(self).running@.len() - 1
                        &&& exists|idx: int|
                            0 <= idx < old(self).running@.len() && old(self).running@[idx] == task
                                && final(self).running@ == old(self).running@.remove(idx)
                        &&& actions@.len() == 1
                        &&& (actions@[0] matches ExecutorAction::Report { task: t2, outcome: o2 }
                            && t2 == task && o2 == outcome)
                    } else {
                        final(self).running@ == old(self).running@ && actions@.len() == 0
                    }
                },
                SchedulerEvent::CancelRequested { task } => {
                    &&& final(self).registered == old(self).registered
                    &&& if contains_task(old(self).running@, task) {
                        &&& final(self).running@.len() == old(self).running@.len() - 1
                        &&& exists|idx: int|
                            0 <= idx < old(self).running@.len() && old(self).running@[idx] == task
                                && final(self).running@ == old(self).running@.remove(idx)
                        &&& actions@.len() == 1
                        &&& (actions@[0] matches ExecutorAction::Report { task: t2, outcome: o2 }
                            && t2 == task && o2 matches TaskOutcome::Cancelled)
                    } else {
                        final(self).running@ == old(self).running@ && actions@.len() == 0
                    }
                },
                SchedulerEvent::NetworkFailure => {
                    &&& final(self).registered == old(self).registered
                    &&& final(self).running@ == old(self).running@
                    &&& actions@.len() == 1
                    &&& (actions@[0] matches ExecutorAction::Backoff)
                },
            },
    {
        match event {
            SchedulerEvent::Registered => {
                self.registered = true;
                Vec::new()
            },
            SchedulerEvent::Assigned { tasks } => {
                let ghost old_running = self.running@;
                let ghost slots = self.task_slots as int;
                let mut actions: Vec<ExecutorAction> = Vec::new();
                let mut i: usize = 0;
                while i < tasks.len()
                    invariant
                        i <= tasks@.len(),
                        self.task_slots == old(self).task_slots,
                        self.registered == old(self).registered,
                        old_running == old(self).running@,
                        slots == old(self).task_slots as int,
                        old_running.len() <= slots,
                        unique_tasks(old_running),
                        self.running@ == accept_tasks(old_running, tasks@.take(i as int), slots),
                        self.running@.len() <= slots,
                        unique_tasks(self.running@),
                        self.running@.len() >= old_running.len(),
                        actions@.len() == self.running@.len() - old_running.len(),
                        forall|k: int|
                            0 <= k < actions@.len() ==> (#[trigger] actions@[k]
                                matches ExecutorAction::Dispatch { task } && task
                                == self.running@[old_running.len() + k]),
                    decreases tasks@.len() - i,
                {
                    proof {
                        assert(tasks@.take(0) =~= Seq::<TaskId>::empty());
                        assert(tasks@.take(i + 1).drop_last() =~= tasks@.take(i as int));
                        assert(tasks@.take(i + 1).last() == tasks@[i as int]);
                    }
                    let t = tasks[i];
                    if self.running.len() < self.task_slots && !self.is_running(t) {
                        self.running.push(t);
                        actions.push(ExecutorAction::Dispatch { task: t });
                        proof {
                            lemma_accept_tasks_bounded(old_running, tasks@.take(i + 1), slots);
                        }
                    }
                    i += 1;
                }
                proof {
                    assert(tasks@.take(tasks@.len() as int) =~= tasks@);
                }
                actions
            },
            SchedulerEvent::TaskFinished { task, outcome } => {
                match self.find_and_remove(task) {
                    Some(_) => {
                        let mut actions: Vec<ExecutorAction> = Vec::new();
                        actions.push(ExecutorAction::Report { task, outcome });
                        actions
                    },
                    None => Vec::new(),
                }
            },
            SchedulerEvent::CancelRequested { task } => {
                match self.find_and_remove(task) {
                    Some(_) => {
                        let mut actions: Vec<ExecutorAction> = Vec::new();
                        actions.push(
                            ExecutorAction::Report { task, outcome: TaskOutcome::Cancelled },
                        );
                        actions
                    },
                    None => Vec::new(),
                }
            },
            SchedulerEvent::NetworkFailure => {
                let mut actions: Vec<ExecutorAction> = Vec::new();
                actions.push(ExecutorAction::Backoff);
                actions
            },
        }
    }

    /// Remove the given task from the running list if present; frees its
    /// slot in the same step.
    fn find_and_remove(&mut self, task: TaskId) -> (r: Option<usize>)
        requires
            old(self).wf(),
        ensures
            final(self).wf(),
            final(self).task_slots == old(self).task_slots,
            final(self).registered == old(self).registered,
            if contains_task(old(self).running@, task) {
                &&& r matches Some(idx) && 0 <= idx < old(self).running@.len()
                    && old(self).running@[idx as int] == task && final(self).running@
                    == old(self).running@.remove(idx as int)
                &&& final(self).running@.len() == old(self).running@.len() - 1
            } else {
                r is None && final(self).running@ == old(self).running@
            },
    {
        let mut i: usize = 0;
        while i < self.running.len()
            invariant
                i <= self.running@.len(),
                *self == *old(self),
                old(self).wf(),
                forall|j: int| 0 <= j < i ==> self.running@[j] != task,
            decreases self.running@.len() - i,
        {
            if self.running[i].stage_id == task.stage_id && self.running[i].partition_id
                == task.partition_id {
                let ghost before = self.running@;
                self.running.remove(i);
                proof {
                    before.remove_ensures(i as int);
                    assert(unique_tasks(self.running@)) by {
                        assert forall|a: int, b: int|
                            0 <= a < b < self.running@.len() implies self.running@[a]
                            != self.running@[b] by {
                            if a < i {
                                if b < i as int {
                                } else {
                                    assert(self.running@[b] == before[b + 1]);
                                }
                            } else {
                                assert(self.running@[a] == before[a + 1]);
                                assert(self.running@[b] == before[b + 1]);
                            }
                        }
                    }
                }
                return Some(i);
            }
            i += 1;
        }
        proof {
            assert(!contains_task(self.running@, task));
        }
        None
    }
}

/// Concurrency bound: with `task_slots` slots, however ready tasks arrive,
/// the loop never has more tasks running than slots — `new` establishes
/// the bound and every `step` preserves it.
pub proof fn lemma_concurrency_bound(s: PollLoop)
    requires
        s.wf(),
    ensures
        s.running@.len() <= s.task_slots,
{
}

} // verus!
