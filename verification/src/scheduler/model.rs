//! The bookkeeping of the scheduler as a mathematical model: which tasks
//! exist, in which state, who waits for them, and what is due to resume.
//!
//! Every operation of the scheduler is a function from one model to the
//! next. The executable scheduler is specified by these functions, and the
//! laws of the protocol are proved about them.

use vstd::prelude::*;
use super::value::Value;

verus! {

/// The identity of a task. Identities are issued in rising order and never
/// issued twice.
#[derive(Debug, Clone, Copy, PartialEq, Eq, Hash, Structural)]
pub struct TaskId {
    pub index: u64,
}

/// Where a task stands.
#[derive(Debug, PartialEq, Eq)]
pub enum TaskState {
    /// Registered and not yet due to resume.
    Pending,
    /// In the ready queue.
    Queued,
    /// Handed to the driver to resume.
    Running,
    /// Yielded, and waiting for whatever it awaits to enqueue it again.
    Suspended,
    /// Returned a value.
    Completed(Value),
    /// Raised an error, kept as its payload.
    Failed(Value),
}

/// What the scheduler keeps for one task.
#[derive(Debug, PartialEq, Eq)]
pub struct TaskInfo {
    /// The handle by which the host finds the resumable unit.
    pub unit: u64,
    pub state: TaskState,
    /// Whether someone has registered to wait for the result.
    pub awaited: bool,
}

/// One entry of the ready queue: a task and what it is to be resumed with.
#[derive(Debug, PartialEq, Eq)]
pub struct ReadyEntry {
    pub task: TaskId,
    pub args: Vec<Value>,
}

/// What the driver needs to resume a task: its identity, the handle of
/// its resumable unit, and the arguments to resume it with.
#[derive(Debug, PartialEq, Eq)]
pub struct Resumption {
    pub task: TaskId,
    pub unit: u64,
    pub args: Vec<Value>,
}

/// How a call on the scheduler can fail.
#[derive(Debug, PartialEq, Eq)]
pub enum SchedulerError {
    /// The task raised an error; this is its payload, as it was raised.
    TaskFailed(Value),
    /// The task already has a waiter that has not taken the result.
    DoubleTrack,
    /// No task with this identity has been issued.
    UnknownTask,
    /// The task was issued and is gone: its result was taken, or it finished
    /// without a waiter.
    NoResult,
    /// The task has no registered waiter.
    NotTracked,
    /// The task has not finished.
    NotComplete,
    /// The task is queued, running or finished, so it cannot be enqueued.
    NotResumable,
}

/// What became of a reported completion.
#[derive(Debug, Clone, Copy, PartialEq, Eq, Structural)]
pub enum Completion {
    /// The result is kept for the waiter, who is to be woken once.
    Delivered,
    /// Nobody waits: the result was discarded and the task forgotten.
    Orphaned,
    /// The task is not running; nothing changed.
    Rejected,
}

/// What the driver loop does next.
#[derive(Debug, Clone, Copy, PartialEq, Eq, Structural)]
pub enum DriverAction {
    /// Leave the loop.
    Exit,
    /// Resume what the ready queue holds.
    Resume,
    /// Poll the executors again without sleeping.
    Poll,
    /// Yield to the operating system until something happens.
    Park,
    /// Nothing can ever wake a task that someone waits for: give up loudly.
    Stalled,
}

/// The state of the scheduler's bookkeeping.
pub struct Model {
    /// The tasks that exist.
    pub tasks: Map<TaskId, TaskInfo>,
    /// The ready queue, front first.
    pub ready: Seq<ReadyEntry>,
    /// How many identities have been issued.
    pub issued: nat,
}

/// Whether a state is one of the two final ones.
pub open spec fn is_finished(state: TaskState) -> bool {
    state is Completed || state is Failed
}

impl Model {
    /// The model of a scheduler that has seen no task.
    pub open spec fn empty() -> Model {
        Model { tasks: Map::empty(), ready: Seq::empty(), issued: 0 }
    }

    /// The identity that the next task gets.
    pub open spec fn next_id(self) -> TaskId {
        TaskId { index: self.issued as u64 }
    }

    /// Whether the task exists and is in the given state.
    pub open spec fn in_state(self, id: TaskId, state: TaskState) -> bool {
        self.tasks.contains_key(id) && self.tasks[id].state == state
    }

    /// The model with the state of an existing task replaced.
    pub open spec fn with_state(self, id: TaskId, state: TaskState) -> Model {
        Model {
            tasks: self.tasks.insert(
                id,
                TaskInfo { unit: self.tasks[id].unit, state, awaited: self.tasks[id].awaited },
            ),
            ..self
        }
    }

    /// What the bookkeeping must satisfy at all times.
    pub open spec fn wf(self) -> bool {
        &&& self.issued <= u64::MAX
        &&& forall|id: TaskId| #[trigger] self.tasks.contains_key(id) ==> id.index < self.issued
        &&& forall|id: TaskId| #[trigger]
            self.tasks.contains_key(id) && is_finished(self.tasks[id].state)
                ==> self.tasks[id].awaited
        &&& forall|i: int|
            0 <= i < self.ready.len() ==> self.in_state(
                (#[trigger] self.ready[i]).task,
                TaskState::Queued,
            )
        &&& forall|i: int, j: int|
            0 <= i < j < self.ready.len() ==> (#[trigger] self.ready[i]).task != (
            #[trigger] self.ready[j]).task
    }

    /// Registering a task: it gets the next identity and starts as pending.
    pub open spec fn create_task(self, unit: u64) -> Model {
        Model {
            tasks: self.tasks.insert(
                self.next_id(),
                TaskInfo { unit, state: TaskState::Pending, awaited: false },
            ),
            ready: self.ready,
            issued: self.issued + 1,
        }
    }

    /// Whether a task may be put into the ready queue: it exists and is
    /// pending or suspended.
    pub open spec fn resumable(self, id: TaskId) -> bool {
        self.tasks.contains_key(id) && (self.tasks[id].state is Pending
            || self.tasks[id].state is Suspended)
    }

    /// What enqueueing a task answers.
    pub open spec fn enqueue_answer(self, id: TaskId) -> Result<(), SchedulerError> {
        if !self.tasks.contains_key(id) {
            Err(SchedulerError::UnknownTask)
        } else if !self.resumable(id) {
            Err(SchedulerError::NotResumable)
        } else {
            Ok(())
        }
    }

    /// Enqueueing a task: it goes to the back of the ready queue.
    pub open spec fn enqueue_back(self, id: TaskId, args: Vec<Value>) -> Model {
        if self.resumable(id) {
            Model {
                ready: self.ready.push(ReadyEntry { task: id, args }),
                ..self.with_state(id, TaskState::Queued)
            }
        } else {
            self
        }
    }

    /// What registering a waiter answers.
    pub open spec fn track_answer(self, id: TaskId) -> Result<(), SchedulerError> {
        if !self.tasks.contains_key(id) {
            Err(SchedulerError::UnknownTask)
        } else if self.tasks[id].awaited {
            Err(SchedulerError::DoubleTrack)
        } else {
            Ok(())
        }
    }

    /// Registering a waiter: the task is marked, unless it has one already.
    pub open spec fn track(self, id: TaskId) -> Model {
        if self.track_answer(id) is Ok {
            Model {
                tasks: self.tasks.insert(
                    id,
                    TaskInfo {
                        unit: self.tasks[id].unit,
                        state: self.tasks[id].state,
                        awaited: true,
                    },
                ),
                ..self
            }
        } else {
            self
        }
    }

    /// Taking the front of the ready queue: its task is now running.
    pub open spec fn pop_ready(self) -> Model {
        if self.ready.len() == 0 {
            self
        } else {
            Model {
                ready: self.ready.skip(1),
                ..self.with_state(self.ready[0].task, TaskState::Running)
            }
        }
    }

    /// What the driver is handed for an entry of the ready queue.
    pub open spec fn resumption(self, entry: ReadyEntry) -> Resumption {
        Resumption { task: entry.task, unit: self.tasks[entry.task].unit, args: entry.args }
    }

    /// What the driver is handed next, if the ready queue holds an entry.
    pub open spec fn front(self) -> Option<Resumption> {
        if self.ready.len() == 0 {
            None
        } else {
            Some(self.resumption(self.ready[0]))
        }
    }

    /// The model after the first `n` entries of the ready queue were taken.
    pub open spec fn pop_many(self, n: nat) -> Model
        decreases n,
    {
        if n == 0 {
            self
        } else {
            self.pop_many((n - 1) as nat).pop_ready()
        }
    }

    /// One pass of the driver: every entry of the ready queue is taken,
    /// front first.
    pub open spec fn drain(self) -> Model {
        self.pop_many(self.ready.len())
    }

    /// What one pass of the driver resumes, in this order.
    pub open spec fn pass(self) -> Seq<Resumption> {
        Seq::new(self.ready.len(), |i: int| self.resumption(self.ready[i]))
    }

    /// A running task yielded: it is suspended and not queued again.
    pub open spec fn suspend(self, id: TaskId) -> Model {
        if self.in_state(id, TaskState::Running) {
            self.with_state(id, TaskState::Suspended)
        } else {
            self
        }
    }

    /// What becomes of the completion of a task.
    pub open spec fn finish_answer(self, id: TaskId) -> Completion {
        if !self.in_state(id, TaskState::Running) {
            Completion::Rejected
        } else if self.tasks[id].awaited {
            Completion::Delivered
        } else {
            Completion::Orphaned
        }
    }

    /// A running task reached the final state `end`: the state is kept for
    /// the waiter, or the task is forgotten if nobody waits.
    pub open spec fn finish(self, id: TaskId, end: TaskState) -> Model {
        match self.finish_answer(id) {
            Completion::Rejected => self,
            Completion::Delivered => self.with_state(id, end),
            Completion::Orphaned => Model { tasks: self.tasks.remove(id), ..self },
        }
    }

    /// Whether the result of a task is there to be taken.
    pub open spec fn result_ready(self, id: TaskId) -> bool {
        self.tasks.contains_key(id) && self.tasks[id].awaited && is_finished(
            self.tasks[id].state,
        )
    }

    /// What a waiter is told when it asks whether to wait: `true` when the
    /// result is there, `false` when it has to sleep until it is woken, and
    /// an error for a task that is gone, unknown or not awaited.
    pub open spec fn await_answer(self, id: TaskId) -> Result<bool, SchedulerError> {
        if !self.tasks.contains_key(id) {
            if id.index < self.issued {
                Err(SchedulerError::NoResult)
            } else {
                Err(SchedulerError::UnknownTask)
            }
        } else if !self.tasks[id].awaited {
            Err(SchedulerError::NotTracked)
        } else {
            Ok(is_finished(self.tasks[id].state))
        }
    }

    /// What taking the result of a task answers.
    pub open spec fn take_answer(self, id: TaskId) -> Result<Value, SchedulerError> {
        if !self.tasks.contains_key(id) {
            if id.index < self.issued {
                Err(SchedulerError::NoResult)
            } else {
                Err(SchedulerError::UnknownTask)
            }
        } else if !self.tasks[id].awaited {
            Err(SchedulerError::NotTracked)
        } else {
            match self.tasks[id].state {
                TaskState::Completed(value) => Ok(value),
                TaskState::Failed(payload) => Err(SchedulerError::TaskFailed(payload)),
                _ => Err(SchedulerError::NotComplete),
            }
        }
    }

    /// Taking the result of a task: once it is handed out the task is forgotten.
    pub open spec fn take_result(self, id: TaskId) -> Model {
        if self.result_ready(id) {
            Model { tasks: self.tasks.remove(id), ..self }
        } else {
            self
        }
    }

    /// Whether some task is suspended.
    pub open spec fn some_suspended(self) -> bool {
        exists|id: TaskId| #[trigger] self.in_state(id, TaskState::Suspended)
    }

    /// Whether some task is suspended while someone waits for it.
    pub open spec fn some_waiter_suspended(self) -> bool {
        exists|id: TaskId| #[trigger]
            self.in_state(id, TaskState::Suspended) && self.tasks[id].awaited
    }

    /// What the driver loop does next, given whether a stop was requested,
    /// whether an executor still has work, and whether the last poll of the
    /// executors made progress.
    pub open spec fn decide(self, stop: bool, outstanding: bool, progressed: bool) -> DriverAction {
        if stop {
            DriverAction::Exit
        } else if self.ready.len() > 0 {
            DriverAction::Resume
        } else if !outstanding && !progressed && self.some_waiter_suspended() {
            DriverAction::Stalled
        } else if !outstanding && !self.some_suspended() {
            DriverAction::Exit
        } else if progressed {
            DriverAction::Poll
        } else {
            DriverAction::Park
        }
    }
}

/// Whether an answer hands out the final value or error of a task.
pub open spec fn is_delivery(answer: Result<Value, SchedulerError>) -> bool {
    answer is Ok || answer->Err_0 is TaskFailed
}

} // verus!
