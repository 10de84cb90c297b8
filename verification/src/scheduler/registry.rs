//! The executable scheduler: a registry of tasks and a ready queue, kept in
//! step with the model.

use std::collections::VecDeque;
use vstd::prelude::*;
use crate::table::{
    lemma_table_at, lemma_table_len, lemma_table_missing, lemma_table_push, lemma_table_remove,
    table,
};
use super::laws::{
    lemma_create_task_wf, lemma_drain, lemma_enqueue_back_wf, lemma_finish_wf, lemma_pop_many,
    lemma_pop_ready_wf, lemma_suspend_wf, lemma_take_result_wf, lemma_track_wf,
};
use super::model::{
    is_finished, Completion, DriverAction, Model, ReadyEntry, Resumption, SchedulerError, TaskId,
    TaskInfo, TaskState,
};
use super::value::Value;

verus! {

/// One row of the registry.
struct Task {
    id: TaskId,
    info: TaskInfo,
}

spec fn ids(tasks: Seq<Task>) -> Seq<TaskId> {
    Seq::new(tasks.len(), |i: int| tasks[i].id)
}

spec fn infos(tasks: Seq<Task>) -> Seq<TaskInfo> {
    Seq::new(tasks.len(), |i: int| tasks[i].info)
}

spec fn rows(tasks: Seq<Task>) -> Map<TaskId, TaskInfo> {
    table(ids(tasks), infos(tasks))
}

/// The place of the row of a task, if the registry holds one.
fn find(tasks: &Vec<Task>, id: TaskId) -> (res: Option<usize>)
    requires
        ids(tasks@).no_duplicates(),
    ensures
        match res {
            Some(i) => i < tasks@.len() && tasks@[i as int].id == id && rows(tasks@).contains_key(
                id,
            ) && rows(tasks@)[id] == tasks@[i as int].info,
            None => !rows(tasks@).contains_key(id),
        },
{
    let mut i: usize = 0;
    while i < tasks.len()
        invariant
            ids(tasks@).no_duplicates(),
            i <= tasks@.len(),
            forall|k: int| 0 <= k < i ==> tasks@[k].id != id,
        decreases tasks@.len() - i,
    {
        if tasks[i].id.index == id.index {
            proof {
                assert(ids(tasks@)[i as int] == id);
                lemma_table_at(ids(tasks@), infos(tasks@), i as int);
            }
            return Some(i);
        }
        i += 1;
    }
    proof {
        lemma_table_missing(ids(tasks@), infos(tasks@), id);
    }
    None
}

/// Takes the row at place `i` out of the registry.
fn detach(tasks: &mut Vec<Task>, i: usize) -> (task: Task)
    requires
        ids(old(tasks)@).no_duplicates(),
        i < old(tasks)@.len(),
    ensures
        task == old(tasks)@[i as int],
        ids(final(tasks)@).no_duplicates(),
        rows(final(tasks)@) == rows(old(tasks)@).remove(task.id),
{
    let task = tasks.remove(i);
    proof {
        assert(ids(tasks@) =~= ids(old(tasks)@).remove(i as int));
        assert(infos(tasks@) =~= infos(old(tasks)@).remove(i as int));
        lemma_table_remove(ids(old(tasks)@), infos(old(tasks)@), i as int);
    }
    task
}

/// Adds a row for a task that the registry does not hold.
fn attach(tasks: &mut Vec<Task>, task: Task)
    requires
        ids(old(tasks)@).no_duplicates(),
        !rows(old(tasks)@).contains_key(task.id),
    ensures
        ids(final(tasks)@).no_duplicates(),
        rows(final(tasks)@) == rows(old(tasks)@).insert(task.id, task.info),
{
    proof {
        lemma_table_push(ids(tasks@), infos(tasks@), task.id, task.info);
    }
    tasks.push(task);
    proof {
        assert(ids(tasks@) =~= ids(old(tasks)@).push(task.id));
        assert(infos(tasks@) =~= infos(old(tasks)@).push(task.info));
    }
}

/// Puts `info` in place of what the registry holds for the task at place `i`.
fn put(tasks: &mut Vec<Task>, i: usize, state: TaskState, awaited: bool)
    requires
        ids(old(tasks)@).no_duplicates(),
        i < old(tasks)@.len(),
    ensures
        ids(final(tasks)@).no_duplicates(),
        rows(final(tasks)@) == rows(old(tasks)@).insert(
            old(tasks)@[i as int].id,
            TaskInfo { unit: old(tasks)@[i as int].info.unit, state, awaited },
        ),
{
    let task = detach(tasks, i);
    let ghost info = TaskInfo { unit: task.info.unit, state, awaited };
    attach(tasks, Task { id: task.id, info: TaskInfo { unit: task.info.unit, state, awaited } });
    proof {
        assert(rows(old(tasks)@).remove(task.id).insert(task.id, info) =~= rows(
            old(tasks)@,
        ).insert(task.id, info));
    }
}

/// The scheduler's bookkeeping: which tasks exist, who waits for them, and
/// what is due to resume. It resumes nothing itself: the driver takes what
/// is ready, resumes it, and reports what came of it.
pub struct Scheduler {
    next_id: u64,
    tasks: Vec<Task>,
    ready: VecDeque<ReadyEntry>,
}

impl View for Scheduler {
    type V = Model;

    closed spec fn view(&self) -> Model {
        Model { tasks: rows(self.tasks@), ready: self.ready@, issued: self.next_id as nat }
    }
}

impl Scheduler {
    #[verifier::type_invariant]
    spec fn inv(self) -> bool {
        ids(self.tasks@).no_duplicates() && self@.wf()
    }

    /// A scheduler that has seen no task.
    pub fn new() -> (s: Self)
        ensures
            s@ == Model::empty(),
            s@.wf(),
    {
        let s = Scheduler { next_id: 0, tasks: Vec::new(), ready: VecDeque::new() };
        assert(s@.tasks =~= Map::<TaskId, TaskInfo>::empty());
        s
    }

    /// Takes the scheduler apart and leaves an empty one in its place.
    fn take_apart(&mut self) -> (parts: (u64, Vec<Task>, VecDeque<ReadyEntry>))
        ensures
            parts.0 == old(self).next_id,
            parts.1 == old(self).tasks,
            parts.2 == old(self).ready,
    {
        let mut taken = Scheduler::new();
        core::mem::swap(self, &mut taken);
        let Scheduler { next_id, tasks, ready } = taken;
        (next_id, tasks, ready)
    }

    /// Registers a resumable unit as a new task, pending and without waiter.
    pub fn create_task(&mut self, unit: u64) -> (id: TaskId)
        requires
            old(self)@.issued < u64::MAX,
        ensures
            id == old(self)@.next_id(),
            !old(self)@.tasks.contains_key(id),
            final(self)@ == old(self)@.create_task(unit),
            final(self)@.wf(),
    {
        proof {
            use_type_invariant(&*self);
            lemma_create_task_wf(self@, unit);
        }
        let (next_id, mut tasks, ready) = self.take_apart();
        let id = TaskId { index: next_id };
        attach(
            &mut tasks,
            Task { id, info: TaskInfo { unit, state: TaskState::Pending, awaited: false } },
        );
        *self = Scheduler { next_id: next_id + 1, tasks, ready };
        id
    }

    /// Puts a pending or suspended task at the back of the ready queue,
    /// to be resumed with `args`.
    pub fn enqueue_back(&mut self, id: TaskId, args: Vec<Value>) -> (res: Result<
        (),
        SchedulerError,
    >)
        ensures
            res == old(self)@.enqueue_answer(id),
            final(self)@ == old(self)@.enqueue_back(id, args),
            final(self)@.wf(),
    {
        proof {
            use_type_invariant(&*self);
            lemma_enqueue_back_wf(self@, id, args);
        }
        match find(&self.tasks, id) {
            None => Err(SchedulerError::UnknownTask),
            Some(i) => {
                let resumable = matches!(
                    self.tasks[i].info.state,
                    TaskState::Pending | TaskState::Suspended
                );
                if !resumable {
                    return Err(SchedulerError::NotResumable);
                }
                let awaited = self.tasks[i].info.awaited;
                let (next_id, mut tasks, mut ready) = self.take_apart();
                put(&mut tasks, i, TaskState::Queued, awaited);
                ready.push_back(ReadyEntry { task: id, args });
                *self = Scheduler { next_id, tasks, ready };
                Ok(())
            },
        }
    }

    /// Registers a new task and puts it at the back of the ready queue.
    pub fn enqueue(&mut self, unit: u64, args: Vec<Value>) -> (id: TaskId)
        requires
            old(self)@.issued < u64::MAX,
        ensures
            id == old(self)@.next_id(),
            final(self)@ == old(self)@.create_task(unit).enqueue_back(id, args),
            final(self)@.ready == old(self)@.ready.push(ReadyEntry { task: id, args }),
            final(self)@.wf(),
    {
        let id = self.create_task(unit);
        let res = self.enqueue_back(id, args);
        id
    }

    /// Registers the caller as the one waiter for the result of a task.
    pub fn track(&mut self, id: TaskId) -> (res: Result<(), SchedulerError>)
        ensures
            res == old(self)@.track_answer(id),
            final(self)@ == old(self)@.track(id),
            final(self)@.wf(),
    {
        proof {
            use_type_invariant(&*self);
            lemma_track_wf(self@, id);
        }
        match find(&self.tasks, id) {
            None => Err(SchedulerError::UnknownTask),
            Some(i) => {
                if self.tasks[i].info.awaited {
                    return Err(SchedulerError::DoubleTrack);
                }
                let (next_id, mut tasks, ready) = self.take_apart();
                let task = detach(&mut tasks, i);
                attach(
                    &mut tasks,
                    Task {
                        id: task.id,
                        info: TaskInfo {
                            unit: task.info.unit,
                            state: task.info.state,
                            awaited: true,
                        },
                    },
                );
                proof {
                    let info = TaskInfo {
                        unit: task.info.unit,
                        state: task.info.state,
                        awaited: true,
                    };
                    assert(rows(old(self).tasks@).remove(id).insert(id, info) =~= rows(
                        old(self).tasks@,
                    ).insert(id, info));
                }
                *self = Scheduler { next_id, tasks, ready };
                Ok(())
            },
        }
    }

    /// Takes the front of the ready queue for the driver to resume.
    pub fn next_ready(&mut self) -> (res: Option<Resumption>)
        ensures
            res == old(self)@.front(),
            final(self)@ == old(self)@.pop_ready(),
            final(self)@.wf(),
    {
        proof {
            use_type_invariant(&*self);
            lemma_pop_ready_wf(self@);
        }
        if self.ready.len() == 0 {
            return None;
        }
        let ghost m = self@;
        let (next_id, mut tasks, mut ready) = self.take_apart();
        let entry = ready.pop_front().unwrap();
        assert(m.in_state(entry.task, TaskState::Queued));
        assert(ready@ =~= m.ready.skip(1));
        match find(&tasks, entry.task) {
            Some(i) => {
                let unit = tasks[i].info.unit;
                let awaited = tasks[i].info.awaited;
                put(&mut tasks, i, TaskState::Running, awaited);
                *self = Scheduler { next_id, tasks, ready };
                Some(Resumption { task: entry.task, unit, args: entry.args })
            },
            None => {
                proof {
                    assert(false);
                }
                None
            },
        }
    }

    /// Takes everything that the ready queue holds, front first: one pass
    /// of the driver.
    pub fn drain_pass(&mut self) -> (pass: Vec<Resumption>)
        ensures
            pass@ == old(self)@.pass(),
            final(self)@ == old(self)@.drain(),
            final(self)@.ready.len() == 0,
            forall|i: int|
                0 <= i < pass@.len() ==> final(self)@.in_state(
                    (#[trigger] pass@[i]).task,
                    TaskState::Running,
                ),
            final(self)@.wf(),
    {
        proof {
            use_type_invariant(&*self);
            lemma_drain(self@);
        }
        let ghost start = self@;
        let mut pass: Vec<Resumption> = Vec::new();
        let total = self.ready.len();
        let mut k: usize = 0;
        while k < total
            invariant
                start.wf(),
                total == start.ready.len(),
                k <= total,
                self@ == start.pop_many(k as nat),
                pass@ == start.pass().take(k as int),
            decreases total - k,
        {
            proof {
                lemma_pop_many(start, k as nat);
            }
            let next = self.next_ready();
            match next {
                Some(resumption) => {
                    pass.push(resumption);
                    proof {
                        assert(start.pass().take(k + 1) =~= start.pass().take(k as int).push(
                            resumption,
                        ));
                    }
                },
                None => {
                    proof {
                        assert(false);
                    }
                },
            }
            k += 1;
        }
        proof {
            lemma_pop_many(start, total as nat);
            assert(start.pass().take(total as int) =~= start.pass());
        }
        pass
    }

    /// Records that a running task yielded. Answers whether it was running.
    pub fn suspend(&mut self, id: TaskId) -> (res: bool)
        ensures
            res == old(self)@.in_state(id, TaskState::Running),
            final(self)@ == old(self)@.suspend(id),
            final(self)@.wf(),
    {
        proof {
            use_type_invariant(&*self);
            lemma_suspend_wf(self@, id);
        }
        match find(&self.tasks, id) {
            None => false,
            Some(i) => {
                let running = matches!(self.tasks[i].info.state, TaskState::Running);
                if !running {
                    return false;
                }
                let awaited = self.tasks[i].info.awaited;
                let (next_id, mut tasks, ready) = self.take_apart();
                put(&mut tasks, i, TaskState::Suspended, awaited);
                *self = Scheduler { next_id, tasks, ready };
                true
            },
        }
    }

    /// Records the final state of a running task.
    fn finish(&mut self, id: TaskId, end: TaskState) -> (res: Completion)
        requires
            is_finished(end),
        ensures
            res == old(self)@.finish_answer(id),
            final(self)@ == old(self)@.finish(id, end),
            final(self)@.wf(),
    {
        proof {
            use_type_invariant(&*self);
            lemma_finish_wf(self@, id, end);
        }
        match find(&self.tasks, id) {
            None => Completion::Rejected,
            Some(i) => {
                let running = matches!(self.tasks[i].info.state, TaskState::Running);
                if !running {
                    return Completion::Rejected;
                }
                let awaited = self.tasks[i].info.awaited;
                let (next_id, mut tasks, ready) = self.take_apart();
                if awaited {
                    put(&mut tasks, i, end, true);
                    *self = Scheduler { next_id, tasks, ready };
                    Completion::Delivered
                } else {
                    let task = detach(&mut tasks, i);
                    *self = Scheduler { next_id, tasks, ready };
                    Completion::Orphaned
                }
            },
        }
    }

    /// Records that a running task returned `value`. The value is kept for
    /// the waiter, or discarded if there is none.
    pub fn complete(&mut self, id: TaskId, value: Value) -> (res: Completion)
        ensures
            res == old(self)@.finish_answer(id),
            final(self)@ == old(self)@.finish(id, TaskState::Completed(value)),
            final(self)@.wf(),
    {
        self.finish(id, TaskState::Completed(value))
    }

    /// Records that a running task raised an error with `payload`. The
    /// payload is kept for the waiter, or discarded if there is none.
    pub fn fail(&mut self, id: TaskId, payload: Value) -> (res: Completion)
        ensures
            res == old(self)@.finish_answer(id),
            final(self)@ == old(self)@.finish(id, TaskState::Failed(payload)),
            final(self)@.wf(),
    {
        self.finish(id, TaskState::Failed(payload))
    }

    /// Whether the result of a task is there for its waiter: what a waiter
    /// checks before it goes to sleep.
    pub fn result_ready(&self, id: TaskId) -> (res: bool)
        ensures
            self@.wf(),
            res == self@.result_ready(id),
    {
        proof {
            use_type_invariant(self);
        }
        match find(&self.tasks, id) {
            None => false,
            Some(i) => self.tasks[i].info.awaited && matches!(
                self.tasks[i].info.state,
                TaskState::Completed(_) | TaskState::Failed(_)
            ),
        }
    }

    /// Tells a waiter whether the result of its task is there already. If
    /// it is not, the waiter sleeps until the driver wakes it, which the
    /// driver does once: when the completion of the task is answered
    /// `Delivered`.
    pub fn await_completion(&self, id: TaskId) -> (res: Result<bool, SchedulerError>)
        ensures
            self@.wf(),
            res == self@.await_answer(id),
    {
        proof {
            use_type_invariant(self);
        }
        match find(&self.tasks, id) {
            None => {
                if id.index < self.next_id {
                    Err(SchedulerError::NoResult)
                } else {
                    Err(SchedulerError::UnknownTask)
                }
            },
            Some(i) => {
                if !self.tasks[i].info.awaited {
                    Err(SchedulerError::NotTracked)
                } else {
                    Ok(
                        matches!(
                            self.tasks[i].info.state,
                            TaskState::Completed(_) | TaskState::Failed(_)
                        ),
                    )
                }
            },
        }
    }

    /// Hands out the final value or error of a task to its waiter, once.
    pub fn take_result(&mut self, id: TaskId) -> (res: Result<Value, SchedulerError>)
        ensures
            res == old(self)@.take_answer(id),
            final(self)@ == old(self)@.take_result(id),
            final(self)@.wf(),
    {
        proof {
            use_type_invariant(&*self);
            lemma_take_result_wf(self@, id);
        }
        match find(&self.tasks, id) {
            None => {
                if id.index < self.next_id {
                    Err(SchedulerError::NoResult)
                } else {
                    Err(SchedulerError::UnknownTask)
                }
            },
            Some(i) => {
                if !self.tasks[i].info.awaited {
                    return Err(SchedulerError::NotTracked);
                }
                let finished = matches!(
                    self.tasks[i].info.state,
                    TaskState::Completed(_) | TaskState::Failed(_)
                );
                if !finished {
                    return Err(SchedulerError::NotComplete);
                }
                let (next_id, mut tasks, ready) = self.take_apart();
                let task = detach(&mut tasks, i);
                *self = Scheduler { next_id, tasks, ready };
                match task.info.state {
                    TaskState::Completed(value) => Ok(value),
                    TaskState::Failed(payload) => Err(SchedulerError::TaskFailed(payload)),
                    _ => Err(SchedulerError::NotComplete),
                }
            },
        }
    }

    /// Whether a task with this identity exists.
    pub fn contains(&self, id: TaskId) -> (res: bool)
        ensures
            self@.wf(),
            res == self@.tasks.contains_key(id),
    {
        proof {
            use_type_invariant(self);
        }
        find(&self.tasks, id).is_some()
    }

    /// The state of a task, if it exists.
    pub fn state(&self, id: TaskId) -> (res: Option<&TaskState>)
        ensures
            self@.wf(),
            match res {
                Some(state) => self@.tasks.contains_key(id) && *state == self@.tasks[id].state,
                None => !self@.tasks.contains_key(id),
            },
    {
        proof {
            use_type_invariant(self);
        }
        match find(&self.tasks, id) {
            Some(i) => Some(&self.tasks[i].info.state),
            None => None,
        }
    }

    /// The handle of the resumable unit of a task, if the task exists.
    pub fn unit(&self, id: TaskId) -> (res: Option<u64>)
        ensures
            self@.wf(),
            match res {
                Some(unit) => self@.tasks.contains_key(id) && unit == self@.tasks[id].unit,
                None => !self@.tasks.contains_key(id),
            },
    {
        proof {
            use_type_invariant(self);
        }
        match find(&self.tasks, id) {
            Some(i) => Some(self.tasks[i].info.unit),
            None => None,
        }
    }

    /// Whether someone waits for the result of a task that exists.
    pub fn is_awaited(&self, id: TaskId) -> (res: bool)
        ensures
            self@.wf(),
            res == (self@.tasks.contains_key(id) && self@.tasks[id].awaited),
    {
        proof {
            use_type_invariant(self);
        }
        match find(&self.tasks, id) {
            Some(i) => self.tasks[i].info.awaited,
            None => false,
        }
    }

    /// How many identities have been issued. A task can be registered as
    /// long as this is below the largest number.
    pub fn issued(&self) -> (res: u64)
        ensures
            self@.wf(),
            res == self@.issued,
    {
        proof {
            use_type_invariant(self);
        }
        self.next_id
    }

    /// How many entries the ready queue holds.
    pub fn ready_len(&self) -> (res: usize)
        ensures
            self@.wf(),
            res == self@.ready.len(),
    {
        proof {
            use_type_invariant(self);
        }
        self.ready.len()
    }

    /// How many tasks exist.
    pub fn task_count(&self) -> (res: usize)
        ensures
            self@.wf(),
            self@.tasks.dom().finite(),
            res == self@.tasks.dom().len(),
    {
        proof {
            use_type_invariant(self);
            lemma_table_len(ids(self.tasks@), infos(self.tasks@));
        }
        self.tasks.len()
    }

    /// What the driver loop does next, given whether a stop was requested,
    /// whether an executor still has work, and whether the last poll of the
    /// executors made progress.
    pub fn decide(&self, stop: bool, outstanding: bool, progressed: bool) -> (res: DriverAction)
        ensures
            self@.wf(),
            res == self@.decide(stop, outstanding, progressed),
    {
        proof {
            use_type_invariant(self);
        }
        if stop {
            return DriverAction::Exit;
        }
        if self.ready.len() > 0 {
            return DriverAction::Resume;
        }
        let mut suspended = false;
        let mut waiter_suspended = false;
        let mut i: usize = 0;
        while i < self.tasks.len()
            invariant
                i <= self.tasks@.len(),
                suspended == exists|k: int|
                    0 <= k < i && (#[trigger] self.tasks@[k]).info.state is Suspended,
                waiter_suspended == exists|k: int|
                    0 <= k < i && (#[trigger] self.tasks@[k]).info.state is Suspended
                        && self.tasks@[k].info.awaited,
            decreases self.tasks@.len() - i,
        {
            if matches!(self.tasks[i].info.state, TaskState::Suspended) {
                suspended = true;
                if self.tasks[i].info.awaited {
                    waiter_suspended = true;
                }
            }
            i += 1;
        }
        proof {
            let m = self@;
            let ts = self.tasks@;
            if suspended {
                let k = choose|k: int|
                    0 <= k < ts.len() && (#[trigger] ts[k]).info.state is Suspended;
                assert(ids(ts)[k] == ts[k].id);
                lemma_table_at(ids(ts), infos(ts), k);
                assert(m.in_state(ts[k].id, TaskState::Suspended));
            }
            if m.some_suspended() {
                let id = choose|id: TaskId| #[trigger] m.in_state(id, TaskState::Suspended);
                let k = ids(ts).index_of(id);
                lemma_table_at(ids(ts), infos(ts), k);
                assert(ts[k].info.state is Suspended);
            }
            if waiter_suspended {
                let k = choose|k: int|
                    0 <= k < ts.len() && (#[trigger] ts[k]).info.state is Suspended
                        && ts[k].info.awaited;
                assert(ids(ts)[k] == ts[k].id);
                lemma_table_at(ids(ts), infos(ts), k);
                assert(m.in_state(ts[k].id, TaskState::Suspended) && m.tasks[ts[k].id].awaited);
            }
            if m.some_waiter_suspended() {
                let id = choose|id: TaskId| #[trigger]
                    m.in_state(id, TaskState::Suspended) && m.tasks[id].awaited;
                let k = ids(ts).index_of(id);
                lemma_table_at(ids(ts), infos(ts), k);
                assert(ts[k].info.state is Suspended && ts[k].info.awaited);
            }
        }
        if !outstanding && !progressed && waiter_suspended {
            DriverAction::Stalled
        } else if !outstanding && !suspended {
            DriverAction::Exit
        } else if progressed {
            DriverAction::Poll
        } else {
            DriverAction::Park
        }
    }
}

} // verus!
