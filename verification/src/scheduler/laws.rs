//! Laws of the scheduling protocol, proved about the model.

use vstd::prelude::*;
use super::model::{
    is_delivery, is_finished, Completion, DriverAction, Model, ReadyEntry, SchedulerError, TaskId,
    TaskState,
};
use super::value::Value;

verus! {

/// The empty model is well formed.
pub proof fn lemma_empty_wf()
    ensures
        Model::empty().wf(),
{
}

/// Registering a task keeps the bookkeeping well formed, as long as
/// identities are left to issue.
pub proof fn lemma_create_task_wf(m: Model, unit: u64)
    requires
        m.wf(),
        m.issued < u64::MAX,
    ensures
        m.create_task(unit).wf(),
        !m.tasks.contains_key(m.next_id()),
{
    let n = m.create_task(unit);
    assert(!m.tasks.contains_key(m.next_id())) by {
        if m.tasks.contains_key(m.next_id()) {
            assert(m.next_id().index < m.issued);
        }
    }
    assert forall|i: int| 0 <= i < n.ready.len() implies n.in_state(
        (#[trigger] n.ready[i]).task,
        TaskState::Queued,
    ) by {
        assert(m.in_state(m.ready[i].task, TaskState::Queued));
    }
}

/// Enqueueing a task keeps the bookkeeping well formed.
pub proof fn lemma_enqueue_back_wf(m: Model, id: TaskId, args: Vec<Value>)
    requires
        m.wf(),
    ensures
        m.enqueue_back(id, args).wf(),
{
    let n = m.enqueue_back(id, args);
    if m.resumable(id) {
        assert forall|i: int| 0 <= i < n.ready.len() implies n.in_state(
            (#[trigger] n.ready[i]).task,
            TaskState::Queued,
        ) by {
            if i < m.ready.len() {
                assert(m.in_state(m.ready[i].task, TaskState::Queued));
            }
        }
        assert forall|i: int, j: int| 0 <= i < j < n.ready.len() implies (#[trigger] n.ready[i]).task
            != (#[trigger] n.ready[j]).task by {
            assert(m.in_state(m.ready[i].task, TaskState::Queued));
        }
    }
}

/// Registering a waiter keeps the bookkeeping well formed.
pub proof fn lemma_track_wf(m: Model, id: TaskId)
    requires
        m.wf(),
    ensures
        m.track(id).wf(),
{
    let n = m.track(id);
    assert forall|i: int| 0 <= i < n.ready.len() implies n.in_state(
        (#[trigger] n.ready[i]).task,
        TaskState::Queued,
    ) by {
        assert(m.in_state(m.ready[i].task, TaskState::Queued));
    }
}

/// Taking the front of the ready queue keeps the bookkeeping well formed.
pub proof fn lemma_pop_ready_wf(m: Model)
    requires
        m.wf(),
    ensures
        m.pop_ready().wf(),
{
    let n = m.pop_ready();
    if m.ready.len() > 0 {
        assert(m.in_state(m.ready[0].task, TaskState::Queued));
        assert forall|i: int| 0 <= i < n.ready.len() implies n.in_state(
            (#[trigger] n.ready[i]).task,
            TaskState::Queued,
        ) by {
            assert(n.ready[i] == m.ready[i + 1]);
            assert(m.in_state(m.ready[i + 1].task, TaskState::Queued));
            assert(m.ready[0].task != m.ready[i + 1].task);
        }
        assert forall|i: int, j: int| 0 <= i < j < n.ready.len() implies (#[trigger] n.ready[i]).task
            != (#[trigger] n.ready[j]).task by {
            assert(m.ready[i + 1].task != m.ready[j + 1].task);
        }
    }
}

/// Suspending a task keeps the bookkeeping well formed.
pub proof fn lemma_suspend_wf(m: Model, id: TaskId)
    requires
        m.wf(),
    ensures
        m.suspend(id).wf(),
{
    let n = m.suspend(id);
    assert forall|i: int| 0 <= i < n.ready.len() implies n.in_state(
        (#[trigger] n.ready[i]).task,
        TaskState::Queued,
    ) by {
        assert(m.in_state(m.ready[i].task, TaskState::Queued));
    }
}

/// Finishing a task keeps the bookkeeping well formed.
pub proof fn lemma_finish_wf(m: Model, id: TaskId, end: TaskState)
    requires
        m.wf(),
        is_finished(end),
    ensures
        m.finish(id, end).wf(),
{
    let n = m.finish(id, end);
    assert forall|i: int| 0 <= i < n.ready.len() implies n.in_state(
        (#[trigger] n.ready[i]).task,
        TaskState::Queued,
    ) by {
        assert(m.in_state(m.ready[i].task, TaskState::Queued));
    }
}

/// Taking a result keeps the bookkeeping well formed.
pub proof fn lemma_take_result_wf(m: Model, id: TaskId)
    requires
        m.wf(),
    ensures
        m.take_result(id).wf(),
{
    let n = m.take_result(id);
    assert forall|i: int| 0 <= i < n.ready.len() implies n.in_state(
        (#[trigger] n.ready[i]).task,
        TaskState::Queued,
    ) by {
        assert(m.in_state(m.ready[i].task, TaskState::Queued));
    }
}

/// Taking `n` entries leaves the rest of the queue as it was, so the entry
/// taken next is the one that stood at place `n`. It forgets no task and
/// changes no handle.
pub proof fn lemma_pop_many(m: Model, n: nat)
    requires
        m.wf(),
        n <= m.ready.len(),
    ensures
        m.pop_many(n).wf(),
        m.pop_many(n).ready == m.ready.skip(n as int),
        m.pop_many(n).issued == m.issued,
        m.pop_many(n).tasks.dom() == m.tasks.dom(),
        forall|id: TaskId| #[trigger]
            m.tasks.contains_key(id) ==> m.pop_many(n).tasks[id].unit == m.tasks[id].unit,
    decreases n,
{
    if n > 0 {
        let p = m.pop_many((n - 1) as nat);
        lemma_pop_many(m, (n - 1) as nat);
        lemma_pop_ready_wf(p);
        assert(p.ready.len() > 0);
        assert(p.ready.skip(1) =~= m.ready.skip(n as int));
        assert(p.in_state(p.ready[0].task, TaskState::Queued));
        assert(p.pop_ready().tasks.dom() =~= p.tasks.dom());
    } else {
        assert(m.ready.skip(0) =~= m.ready);
    }
}

/// After `n` entries were taken, the tasks of those entries are running and
/// every other task is as it was.
pub proof fn lemma_pop_many_states(m: Model, n: nat)
    requires
        m.wf(),
        n <= m.ready.len(),
    ensures
        forall|i: int|
            0 <= i < n ==> m.pop_many(n).in_state((#[trigger] m.ready[i]).task, TaskState::Running),
        forall|id: TaskId|
            (forall|i: int| 0 <= i < n ==> (#[trigger] m.ready[i]).task != id) && m.tasks.contains_key(
                id,
            ) ==> #[trigger] m.pop_many(n).tasks[id] == m.tasks[id],
    decreases n,
{
    if n > 0 {
        let p = m.pop_many((n - 1) as nat);
        lemma_pop_many(m, (n - 1) as nat);
        lemma_pop_many_states(m, (n - 1) as nat);
        assert(p.ready[0] == m.ready[n - 1]);
        assert forall|i: int| 0 <= i < n implies m.pop_many(n).in_state(
            (#[trigger] m.ready[i]).task,
            TaskState::Running,
        ) by {
            if i < n - 1 {
                assert(m.ready[i].task != m.ready[n - 1].task);
                assert(p.in_state(m.ready[i].task, TaskState::Running));
            }
        }
        assert forall|id: TaskId|
            (forall|i: int| 0 <= i < n ==> (#[trigger] m.ready[i]).task != id)
                && m.tasks.contains_key(id) implies #[trigger] m.pop_many(n).tasks[id]
            == m.tasks[id] by {
            assert(m.ready[n - 1].task != id);
            assert(p.tasks[id] == m.tasks[id]);
        }
    }
}

/// A pass of the driver leaves the ready queue empty and every task that
/// it took running; the tasks are resumed in the order of the queue.
pub proof fn lemma_drain(m: Model)
    requires
        m.wf(),
    ensures
        m.drain().wf(),
        m.drain().ready.len() == 0,
        m.pass().len() == m.ready.len(),
        forall|i: int|
            0 <= i < m.ready.len() ==> (#[trigger] m.pass()[i]).task == m.ready[i].task
                && m.pass()[i].args == m.ready[i].args && m.drain().in_state(
                m.ready[i].task,
                TaskState::Running,
            ),
{
    lemma_pop_many(m, m.ready.len());
    lemma_pop_many_states(m, m.ready.len());
}

/// First in, first out. A task enqueued before another stands in front of
/// it in the ready queue, behind everything that was queued before, and a
/// pass of the driver resumes the entries in the order of their places: the
/// entry at place `i` is the one taken after `i` others.
pub proof fn lemma_fifo(m: Model, a: TaskId, args_a: Vec<Value>, b: TaskId, args_b: Vec<Value>)
    requires
        m.wf(),
        m.enqueue_answer(a) is Ok,
        m.enqueue_back(a, args_a).enqueue_answer(b) is Ok,
    ensures
        ({
            let q = m.enqueue_back(a, args_a).enqueue_back(b, args_b);
            let n = m.ready.len() as int;
            &&& q.ready == m.ready.push(ReadyEntry { task: a, args: args_a }).push(
                ReadyEntry { task: b, args: args_b },
            )
            &&& q.pop_many(n as nat).ready[0] == ReadyEntry { task: a, args: args_a }
            &&& q.pop_many((n + 1) as nat).ready[0] == ReadyEntry { task: b, args: args_b }
            &&& forall|i: int|
                0 <= i < q.ready.len() ==> q.pop_many(i as nat).ready[0] == #[trigger] q.ready[i]
            &&& q.drain().ready.len() == 0
        }),
{
    let q = m.enqueue_back(a, args_a).enqueue_back(b, args_b);
    let n = m.ready.len() as int;
    assert forall|i: int| 0 <= i < q.ready.len() implies q.pop_many(i as nat).ready[0]
        == #[trigger] q.ready[i] by {
        lemma_pop_many(q, i as nat);
    }
    lemma_pop_many(q, n as nat);
    lemma_pop_many(q, (n + 1) as nat);
    lemma_pop_many(q, q.ready.len());
}

/// Exactly-once delivery. A result that is there is handed out by the
/// first call; after that call the task is forgotten, and every later call
/// answers `NoResult`, which is not the answer given before completion.
pub proof fn lemma_take_once(m: Model, id: TaskId)
    requires
        m.wf(),
    ensures
        m.result_ready(id) <==> is_delivery(m.take_answer(id)),
        is_delivery(m.take_answer(id)) ==> m.take_result(id).take_answer(id) == Err::<
            Value,
            SchedulerError,
        >(SchedulerError::NoResult),
        is_delivery(m.take_answer(id)) ==> !m.take_result(id).tasks.contains_key(id),
        !is_delivery(m.take_answer(id)) ==> m.take_result(id) == m,
        m.tasks.contains_key(id) && m.tasks[id].awaited && !is_finished(m.tasks[id].state)
            ==> m.take_answer(id) == Err::<Value, SchedulerError>(SchedulerError::NotComplete),
{
}

/// One wake for one waiter. A waiter of a running task is told to wait;
/// the completion of the task is answered `Delivered`, and from then on the
/// waiter is told that the result is there, until it takes it. No other
/// report wakes it: a second completion is rejected and changes nothing.
pub proof fn lemma_one_wake(m: Model, id: TaskId, end: TaskState, again: TaskState)
    requires
        m.wf(),
        m.in_state(id, TaskState::Running),
        m.tasks[id].awaited,
        is_finished(end),
    ensures
        m.await_answer(id) == Ok::<bool, SchedulerError>(false),
        m.finish_answer(id) == Completion::Delivered,
        m.finish(id, end).await_answer(id) == Ok::<bool, SchedulerError>(true),
        m.finish(id, end).result_ready(id),
        m.finish(id, end).finish_answer(id) == Completion::Rejected,
        m.finish(id, end).finish(id, again) == m.finish(id, end),
        m.finish(id, end).take_result(id).await_answer(id) == Err::<bool, SchedulerError>(
            SchedulerError::NoResult,
        ),
{
}

/// A task that was issued and is forgotten stays forgotten, whatever is
/// done next: its identity is never issued again, so no later call can
/// hand out a result under it.
pub proof fn lemma_forgotten_forever(
    m: Model,
    id: TaskId,
    other: TaskId,
    unit: u64,
    args: Vec<Value>,
    end: TaskState,
)
    requires
        m.wf(),
        m.issued < u64::MAX,
        id.index < m.issued,
        !m.tasks.contains_key(id),
    ensures
        !m.create_task(unit).tasks.contains_key(id),
        !m.enqueue_back(other, args).tasks.contains_key(id),
        !m.track(other).tasks.contains_key(id),
        !m.pop_ready().tasks.contains_key(id),
        !m.suspend(other).tasks.contains_key(id),
        !m.finish(other, end).tasks.contains_key(id),
        !m.take_result(other).tasks.contains_key(id),
        m.take_answer(id) == Err::<Value, SchedulerError>(SchedulerError::NoResult),
{
    if m.ready.len() > 0 {
        assert(m.in_state(m.ready[0].task, TaskState::Queued));
    }
}

/// Orphan safety. The completion of a running task that nobody waits for
/// is answered `Orphaned`; the task is forgotten, and nothing else changes:
/// not the ready queue, not any other task, not what the driver decides.
pub proof fn lemma_orphan_discarded(m: Model, id: TaskId, end: TaskState)
    requires
        m.wf(),
        m.in_state(id, TaskState::Running),
        !m.tasks[id].awaited,
    ensures
        m.finish_answer(id) == Completion::Orphaned,
        m.finish(id, end).tasks == m.tasks.remove(id),
        m.finish(id, end).ready == m.ready,
        m.finish(id, end).issued == m.issued,
        forall|stop: bool, outstanding: bool, progressed: bool|
            m.finish(id, end).decide(stop, outstanding, progressed) == m.decide(
                stop,
                outstanding,
                progressed,
            ),
{
    let n = m.finish(id, end);
    assert(n.some_suspended() == m.some_suspended()) by {
        if m.some_suspended() {
            let w = choose|w: TaskId| #[trigger] m.in_state(w, TaskState::Suspended);
            assert(n.in_state(w, TaskState::Suspended));
        }
        if n.some_suspended() {
            let w = choose|w: TaskId| #[trigger] n.in_state(w, TaskState::Suspended);
            assert(m.in_state(w, TaskState::Suspended));
        }
    }
    assert(n.some_waiter_suspended() == m.some_waiter_suspended()) by {
        if m.some_waiter_suspended() {
            let w = choose|w: TaskId| #[trigger]
                m.in_state(w, TaskState::Suspended) && m.tasks[w].awaited;
            assert(n.in_state(w, TaskState::Suspended) && n.tasks[w].awaited);
        }
        if n.some_waiter_suspended() {
            let w = choose|w: TaskId| #[trigger]
                n.in_state(w, TaskState::Suspended) && n.tasks[w].awaited;
            assert(m.in_state(w, TaskState::Suspended) && m.tasks[w].awaited);
        }
    }
}

/// Reporting a completion is answered for every task and every state: a
/// task that is not running is left alone.
pub proof fn lemma_finish_total(m: Model, id: TaskId, end: TaskState)
    ensures
        !m.in_state(id, TaskState::Running) ==> m.finish(id, end) == m && m.finish_answer(id)
            == Completion::Rejected,
{
}

/// A second waiter is refused and the first is unaffected: after a
/// successful registration every further one answers `DoubleTrack` and
/// changes nothing.
pub proof fn lemma_double_track(m: Model, id: TaskId)
    requires
        m.track_answer(id) is Ok,
    ensures
        m.track(id).tasks[id].awaited,
        m.track(id).track_answer(id) == Err::<(), SchedulerError>(SchedulerError::DoubleTrack),
        m.track(id).track(id) == m.track(id),
{
}

/// A stop request ends the loop whatever else holds, and without one the
/// loop never ends while the ready queue holds an entry or a task is
/// suspended.
pub proof fn lemma_decide(m: Model, stop: bool, outstanding: bool, progressed: bool)
    ensures
        stop ==> m.decide(stop, outstanding, progressed) == DriverAction::Exit,
        !stop && m.ready.len() > 0 ==> m.decide(stop, outstanding, progressed)
            == DriverAction::Resume,
        !stop && m.decide(stop, outstanding, progressed) == DriverAction::Exit ==> m.ready.len()
            == 0 && !outstanding && !m.some_suspended(),
        m.decide(stop, outstanding, progressed) == DriverAction::Stalled
            ==> m.some_waiter_suspended() && m.ready.len() == 0 && !outstanding && !progressed,
{
}

} // verus!
