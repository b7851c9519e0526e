//! The full, waker-integrated scheduler.
//!
//! Per-task state machine: Ready (in the ready queue), Suspended (parked in
//! the pending table, waiting for a signal carrying its identifier), Completed
//! (removed from all structures, identifier never reused). A scheduling pass
//! polls ready tasks round-robin; a not-ready task is parked and re-queued
//! only when its signal arrives, so the processor can halt instead of
//! busy-polling when nothing is ready. The halt itself (and the endless
//! interrupt-driven loop around it) belongs to the embedding program; this
//! type supplies the decisions.

use vstd::prelude::*;
use std::collections::VecDeque;
use crate::keyboard::Bridge;
use crate::simple_executor::{
    all_emit, emit_model, lemma_sum_yields_push, round_robin_output, sum_yields, task_models,
};
use crate::task::Task;
use crate::{lemma_log_view_push, log_view, Output, OutputModel, Poll};

verus! {

/// Whether some task among these carries the identifier.
pub open spec fn has_id(tasks: Seq<Task>, id: u64) -> bool {
    exists|i: int| 0 <= i < tasks.len() && (#[trigger] tasks[i]).id_spec() == id
}

/// The position of the task carrying the identifier.
pub open spec fn id_index(tasks: Seq<Task>, id: u64) -> int {
    choose|i: int| 0 <= i < tasks.len() && (#[trigger] tasks[i]).id_spec() == id
}

/// Pairwise distinct identifiers.
pub open spec fn distinct_ids(tasks: Seq<Task>) -> bool {
    forall|i: int, j: int|
        0 <= i < j < tasks.len() ==> (#[trigger] tasks[i]).id_spec() != (
        #[trigger] tasks[j]).id_spec()
}

/// No identifier occurs on both sides.
pub open spec fn disjoint_ids(a: Seq<Task>, b: Seq<Task>) -> bool {
    forall|i: int, j: int|
        0 <= i < a.len() && 0 <= j < b.len() ==> (#[trigger] a[i]).id_spec() != (
        #[trigger] b[j]).id_spec()
}

/// Every one of these tasks may be polled when the queue's initialization
/// state is `initialized` (the consuming task needs the queue to exist).
pub open spec fn pollable(tasks: Seq<Task>, initialized: bool) -> bool {
    forall|i: int|
        0 <= i < tasks.len() ==> ((#[trigger] tasks[i]).comp() is Consume ==> initialized)
}

/// The identifier is live: some task in the ready queue or the pending table
/// carries it.
pub open spec fn live(ready: Seq<Task>, pending: Seq<Task>, id: u64) -> bool {
    has_id(ready, id) || has_id(pending, id)
}

/// An identifier is carried by a non-empty sequence exactly when the front
/// task carries it or the rest does.
proof fn lemma_has_id_drop_first(tasks: Seq<Task>, id: u64)
    requires
        tasks.len() > 0,
    ensures
        has_id(tasks, id) <==> (tasks[0].id_spec() == id || has_id(tasks.drop_first(), id)),
{
    if has_id(tasks, id) {
        let i = choose|i: int| 0 <= i < tasks.len() && (#[trigger] tasks[i]).id_spec() == id;
        if i > 0 {
            assert(tasks.drop_first()[i - 1] == tasks[i]);
        }
    }
    if has_id(tasks.drop_first(), id) {
        let i = choose|i: int|
            0 <= i < tasks.drop_first().len() && (#[trigger] tasks.drop_first()[i]).id_spec()
                == id;
        assert(tasks[i + 1] == tasks.drop_first()[i]);
    }
}

/// An identifier is carried by a sequence extended at the back exactly when
/// the original sequence carries it or the new task does.
proof fn lemma_has_id_push(tasks: Seq<Task>, t: Task, id: u64)
    ensures
        has_id(tasks.push(t), id) <==> (has_id(tasks, id) || t.id_spec() == id),
{
    if has_id(tasks.push(t), id) {
        let i = choose|i: int|
            0 <= i < tasks.push(t).len() && (#[trigger] tasks.push(t)[i]).id_spec() == id;
        if i < tasks.len() {
            assert(tasks[i] == tasks.push(t)[i]);
        } else {
            assert(tasks.push(t)[i] == t);
        }
    }
    if has_id(tasks, id) {
        let i = choose|i: int| 0 <= i < tasks.len() && (#[trigger] tasks[i]).id_spec() == id;
        assert(tasks.push(t)[i] == tasks[i]);
    }
    assert(tasks.push(t)[tasks.len() as int] == t);
}

/// With distinct identifiers, removing the task at `j` removes exactly the
/// identifier it carries.
proof fn lemma_has_id_remove(tasks: Seq<Task>, j: int, id: u64)
    requires
        0 <= j < tasks.len(),
        distinct_ids(tasks),
    ensures
        has_id(tasks.remove(j), id) <==> (has_id(tasks, id) && tasks[j].id_spec() != id),
{
    let r = tasks.remove(j);
    if has_id(r, id) {
        let i = choose|i: int| 0 <= i < r.len() && (#[trigger] r[i]).id_spec() == id;
        assert(r[i] == (if i < j {
            tasks[i]
        } else {
            tasks[i + 1]
        }));
        if i < j {
            assert(tasks[i].id_spec() != tasks[j].id_spec());
        } else {
            assert(tasks[j].id_spec() != tasks[i + 1].id_spec());
        }
    }
    if has_id(tasks, id) && tasks[j].id_spec() != id {
        let i = choose|i: int| 0 <= i < tasks.len() && (#[trigger] tasks[i]).id_spec() == id;
        if i < j {
            assert(r[i] == tasks[i]);
        } else {
            assert(i > j);
            assert(r[i - 1] == tasks[i]);
        }
    }
}

/// Moving the pending task at `j` to the back of the ready queue preserves
/// pollability of both structures.
proof fn lemma_pollable_move(ready: Seq<Task>, pending: Seq<Task>, j: int, initialized: bool)
    requires
        pollable(ready, initialized),
        pollable(pending, initialized),
        0 <= j < pending.len(),
    ensures
        pollable(ready.push(pending[j]), initialized),
        pollable(pending.remove(j), initialized),
{
    let r1 = ready.push(pending[j]);
    assert forall|a: int| 0 <= a < r1.len() implies ((#[trigger] r1[a]).comp() is Consume
        ==> initialized) by {
        if a < ready.len() {
            assert(r1[a] == ready[a]);
        } else {
            assert(r1[a] == pending[j]);
        }
    }
    let p1 = pending.remove(j);
    assert forall|a: int| 0 <= a < p1.len() implies ((#[trigger] p1[a]).comp() is Consume
        ==> initialized) by {
        assert(p1[a] == (if a < j {
            pending[a]
        } else {
            pending[a + 1]
        }));
    }
}

/// A prefix of a sequence is a prefix of any extension of it.
proof fn lemma_prefix_extends(a: Seq<OutputModel>, b: Seq<OutputModel>, c: Seq<OutputModel>)
    requires
        a.is_prefix_of(b),
    ensures
        a.is_prefix_of(b + c),
{
    assert((b + c).subrange(0, a.len() as int) =~= b.subrange(0, a.len() as int));
}

/// Baseline/full equivalence: a baseline run (`SimpleExecutor::run`) and a
/// full-scheduler pass (`Executor::run_ready`) over queues of printing tasks
/// with equal models print the same sequence — each contract pins its printed
/// output to `round_robin_output` of the queued tasks' models.
pub proof fn lemma_baseline_full_equivalence(baseline_queue: Seq<Task>, full_queue: Seq<Task>)
    requires
        task_models(baseline_queue) == task_models(full_queue),
    ensures
        round_robin_output(task_models(baseline_queue)) == round_robin_output(
            task_models(full_queue),
        ),
{
}

/// Idempotent completion: once an identifier is retired as completed, its task
/// stands in neither the ready queue nor the pending table, so it is never
/// polled again — and waking it is a no-op (see `Executor::wake_task`).
pub proof fn lemma_completed_never_scheduled(e: &Executor, id: u64)
    requires
        e.wf(),
        e.completed_ids().contains(id),
    ensures
        !has_id(e.ready_tasks(), id),
        !has_id(e.pending_tasks(), id),
{
}

/// The full scheduler: ready queue, pending table, and the (ghost) set of
/// identifiers whose tasks have completed.
pub struct Executor {
    ready: VecDeque<Task>,
    pending: Vec<Task>,
    completed: Ghost<Set<u64>>,
}

impl Executor {
    /// Tasks eligible to be polled, front first.
    pub closed spec fn ready_tasks(&self) -> Seq<Task> {
        self.ready@
    }

    /// Suspended tasks, each waiting for a signal carrying its identifier.
    pub closed spec fn pending_tasks(&self) -> Seq<Task> {
        self.pending@
    }

    /// Identifiers of tasks that reported completion: never reused, never
    /// polled again.
    pub closed spec fn completed_ids(&self) -> Set<u64> {
        self.completed@
    }

    /// No identifier among these tasks has completed.
    pub open spec fn completed_disjoint(&self, tasks: Seq<Task>) -> bool {
        forall|i: int|
            0 <= i < tasks.len() ==> !self.completed_ids().contains(
                (#[trigger] tasks[i]).id_spec(),
            )
    }

    /// Scheduler invariant: every live task stands in exactly one place (its
    /// identifier appears once across ready queue and pending table), and a
    /// completed identifier stands nowhere — so a completed task is never
    /// polled again.
    pub open spec fn wf(&self) -> bool {
        &&& distinct_ids(self.ready_tasks())
        &&& distinct_ids(self.pending_tasks())
        &&& disjoint_ids(self.ready_tasks(), self.pending_tasks())
        &&& self.completed_disjoint(self.ready_tasks())
        &&& self.completed_disjoint(self.pending_tasks())
    }

    /// An executor with no tasks and nothing completed.
    pub fn new() -> (e: Executor)
        ensures
            e.wf(),
            e.ready_tasks() == Seq::<Task>::empty(),
            e.pending_tasks() == Seq::<Task>::empty(),
            e.completed_ids() == Set::<u64>::empty(),
    {
        Executor { ready: VecDeque::new(), pending: Vec::new(), completed: Ghost(Set::empty()) }
    }

    /// Enqueues a new task as Ready. Its identifier must be fresh, which the
    /// monotonic counter guarantees to callers that draw every identifier from
    /// the one process-wide counter.
    pub fn spawn(&mut self, task: Task)
        requires
            old(self).wf(),
            !has_id(old(self).ready_tasks(), task.id_spec()),
            !has_id(old(self).pending_tasks(), task.id_spec()),
            !old(self).completed_ids().contains(task.id_spec()),
        ensures
            final(self).wf(),
            final(self).ready_tasks() == old(self).ready_tasks().push(task),
            final(self).pending_tasks() == old(self).pending_tasks(),
            final(self).completed_ids() == old(self).completed_ids(),
    {
        proof {
            let r = self.ready@;
            let r1 = r.push(task);
            assert forall|i: int, j: int| 0 <= i < j < r1.len() implies (
            #[trigger] r1[i]).id_spec() != (#[trigger] r1[j]).id_spec() by {
                if j < r.len() {
                    assert(r1[i] == r[i] && r1[j] == r[j]);
                } else {
                    assert(r1[i] == r[i] && r1[j] == task);
                }
            }
            assert forall|i: int, j: int|
                0 <= i < r1.len() && 0 <= j < self.pending@.len() implies (
            #[trigger] r1[i]).id_spec() != (#[trigger] self.pending@[j]).id_spec() by {
                if i < r.len() {
                    assert(r1[i] == r[i]);
                } else {
                    assert(r1[i] == task);
                }
            }
            assert forall|i: int| 0 <= i < r1.len() implies !self.completed@.contains(
                (#[trigger] r1[i]).id_spec(),
            ) by {
                if i < r.len() {
                    assert(r1[i] == r[i]);
                } else {
                    assert(r1[i] == task);
                }
            }
        }
        self.ready.push_back(task);
    }

    /// Moves the pending task carrying this identifier, if any, to the back of
    /// the ready queue. Waking an identifier that is not parked — a task
    /// already ready, or already completed — changes nothing: duplicate and
    /// stale signals are idempotent no-ops.
    pub fn wake_task(&mut self, id: u64)
        requires
            old(self).wf(),
        ensures
            final(self).wf(),
            final(self).completed_ids() == old(self).completed_ids(),
            !has_id(old(self).pending_tasks(), id) ==> (final(self).ready_tasks() == old(
                self,
            ).ready_tasks() && final(self).pending_tasks() == old(self).pending_tasks()),
            has_id(old(self).pending_tasks(), id) ==> (0 <= id_index(old(self).pending_tasks(), id)
                < old(self).pending_tasks().len() && old(self).pending_tasks()[id_index(
                old(self).pending_tasks(),
                id,
            )].id_spec() == id && final(self).pending_tasks() == old(self).pending_tasks().remove(
                id_index(old(self).pending_tasks(), id),
            ) && final(self).ready_tasks() == old(self).ready_tasks().push(
                old(self).pending_tasks()[id_index(old(self).pending_tasks(), id)],
            )),
    {
        let ghost pending0 = self.pending@;
        let mut i: usize = 0;
        while i < self.pending.len()
            invariant
                old(self).wf(),
                *self == *old(self),
                pending0 == self.pending@,
                0 <= i <= self.pending@.len(),
                forall|k: int| 0 <= k < i ==> (#[trigger] self.pending@[k]).id_spec() != id,
            decreases self.pending@.len() - i,
        {
            if self.pending[i].id() == id {
                proof {
                    assert(pending0[i as int].id_spec() == id);
                    assert(has_id(pending0, id));
                    let j = id_index(pending0, id);
                    assert(0 <= j < pending0.len() && pending0[j].id_spec() == id);
                    // pending identifiers are distinct, so the index found is
                    // the index named by `id_index`
                    if j != i as int {
                        if j < i as int {
                            assert(pending0[j].id_spec() != pending0[i as int].id_spec());
                        } else {
                            assert(pending0[i as int].id_spec() != pending0[j].id_spec());
                        }
                    }
                }
                let task = self.pending.remove(i);
                proof {
                    let p1 = pending0.remove(i as int);
                    assert forall|a: int, b: int| 0 <= a < b < p1.len() implies (
                    #[trigger] p1[a]).id_spec() != (#[trigger] p1[b]).id_spec() by {
                        assert(p1[a] == (if a < i as int {
                            pending0[a]
                        } else {
                            pending0[a + 1]
                        }));
                        assert(p1[b] == (if b < i as int {
                            pending0[b]
                        } else {
                            pending0[b + 1]
                        }));
                    }
                    assert forall|a: int| 0 <= a < p1.len() implies !self.completed@.contains(
                        (#[trigger] p1[a]).id_spec(),
                    ) by {
                        assert(p1[a] == (if a < i as int {
                            pending0[a]
                        } else {
                            pending0[a + 1]
                        }));
                    }
                    let r1 = self.ready@.push(task);
                    assert forall|a: int, b: int| 0 <= a < b < r1.len() implies (
                    #[trigger] r1[a]).id_spec() != (#[trigger] r1[b]).id_spec() by {
                        if b < self.ready@.len() {
                            assert(r1[a] == self.ready@[a] && r1[b] == self.ready@[b]);
                        } else {
                            assert(r1[a] == self.ready@[a] && r1[b] == task);
                        }
                    }
                    assert forall|a: int, b: int|
                        0 <= a < r1.len() && 0 <= b < p1.len() implies (#[trigger] r1[a]).id_spec()
                        != (#[trigger] p1[b]).id_spec() by {
                        assert(p1[b] == (if b < i as int {
                            pending0[b]
                        } else {
                            pending0[b + 1]
                        }));
                        if a < self.ready@.len() {
                            assert(r1[a] == self.ready@[a]);
                        } else {
                            assert(r1[a] == task);
                        }
                    }
                    assert forall|a: int| 0 <= a < r1.len() implies !self.completed@.contains(
                        (#[trigger] r1[a]).id_spec(),
                    ) by {
                        if a < self.ready@.len() {
                            assert(r1[a] == self.ready@[a]);
                        } else {
                            assert(r1[a] == task);
                        }
                    }
                }
                self.ready.push_back(task);
                return ;
            }
            i += 1;
        }
        proof {
            assert(!has_id(self.pending@, id));
        }
    }

    /// Number of tasks in the ready queue.
    pub fn ready_len(&self) -> (n: usize)
        ensures
            n == self.ready_tasks().len(),
    {
        self.ready.len()
    }

    /// Number of tasks parked in the pending table.
    pub fn pending_len(&self) -> (n: usize)
        ensures
            n == self.pending_tasks().len(),
    {
        self.pending.len()
    }

    /// One scheduling pass (the run loop's working phase): re-queue every
    /// signaled task, then poll ready tasks round-robin until none is left. A
    /// polled task that completes is dropped and its identifier retired; a
    /// not-ready task is parked in the pending table, unless it woke itself,
    /// in which case it returns to the back of the ready queue. On return the
    /// ready queue is empty and every wake has been honored: the caller may
    /// halt the processor until the next interrupt delivers a scancode.
    ///
    /// With only printing tasks queued, nothing pending and no wake
    /// outstanding, this prints exactly `round_robin_output` of the queue —
    /// the same sequence the baseline scheduler prints.
    pub fn run_ready(&mut self, bridge: &mut Bridge, log: &mut Vec<Output>)
        requires
            old(self).wf(),
            old(bridge).wf(),
            pollable(old(self).ready_tasks(), old(bridge).is_initialized()),
            pollable(old(self).pending_tasks(), old(bridge).is_initialized()),
        ensures
            final(self).wf(),
            final(bridge).wf(),
            final(self).ready_tasks() == Seq::<Task>::empty(),
            final(bridge).woken() == Seq::<u64>::empty(),
            final(bridge).is_initialized() == old(bridge).is_initialized(),
            final(bridge).capacity() == old(bridge).capacity(),
            pollable(final(self).pending_tasks(), final(bridge).is_initialized()),
            old(self).completed_ids().subset_of(final(self).completed_ids()),
            forall|id: u64|
                live(old(self).ready_tasks(), old(self).pending_tasks(), id) <==> (has_id(
                    final(self).pending_tasks(),
                    id,
                ) || (final(self).completed_ids().contains(id) && !old(self).completed_ids(
                ).contains(id))),
            log_view(old(log)@).is_prefix_of(log_view(final(log)@)),
            (all_emit(old(self).ready_tasks()) && old(self).pending_tasks() == Seq::<Task>::empty()
                && old(bridge).woken() == Seq::<u64>::empty()) ==> (log_view(final(log)@)
                == log_view(old(log)@) + round_robin_output(task_models(old(self).ready_tasks()))
                && final(self).pending_tasks() == Seq::<Task>::empty() && final(bridge).events()
                == old(bridge).events() && final(bridge).interest() == old(bridge).interest()),
    {
        let ghost fast = all_emit(old(self).ready_tasks()) && old(self).pending_tasks()
            == Seq::<Task>::empty() && old(bridge).woken() == Seq::<u64>::empty();
        let ghost q0 = task_models(old(self).ready_tasks());
        let ghost l0 = log@;
        // honor wakes that arrived before this pass
        let stale = bridge.take_woken();
        let ghost bridge1 = *bridge;
        let mut w: usize = 0;
        while w < stale.len()
            invariant
                self.wf(),
                *bridge == bridge1,
                stale@ == old(bridge).woken(),
                fast ==> stale@.len() == 0,
                pollable(self.ready_tasks(), bridge.is_initialized()),
                pollable(self.pending_tasks(), bridge.is_initialized()),
                self.completed_ids() == old(self).completed_ids(),
                forall|id: u64|
                    live(old(self).ready_tasks(), old(self).pending_tasks(), id) <==> live(
                        self.ready_tasks(),
                        self.pending_tasks(),
                        id,
                    ),
                fast ==> (self.ready_tasks() == old(self).ready_tasks() && self.pending_tasks()
                    == old(self).pending_tasks()),
            decreases stale@.len() - w,
        {
            let id = stale[w];
            let ghost r0 = self.ready@;
            let ghost p0 = self.pending@;
            proof {
                if has_id(self.pending@, id) {
                    lemma_pollable_move(
                        self.ready@,
                        self.pending@,
                        id_index(self.pending@, id),
                        bridge.is_initialized(),
                    );
                }
            }
            self.wake_task(id);
            proof {
                assert forall|idq: u64| live(r0, p0, idq) <==> live(
                    self.ready@,
                    self.pending@,
                    idq,
                ) by {
                    if has_id(p0, id) {
                        let j = id_index(p0, id);
                        lemma_has_id_push(r0, p0[j], idq);
                        lemma_has_id_remove(p0, j, idq);
                    }
                }
            }
            w += 1;
        }
        while self.ready.len() != 0
            invariant
                self.wf(),
                bridge.wf(),
                bridge.is_initialized() == old(bridge).is_initialized(),
                bridge.capacity() == old(bridge).capacity(),
                bridge.woken() == Seq::<u64>::empty(),
                pollable(self.ready_tasks(), bridge.is_initialized()),
                pollable(self.pending_tasks(), bridge.is_initialized()),
                old(self).completed_ids().subset_of(self.completed_ids()),
                forall|id: u64|
                    live(old(self).ready_tasks(), old(self).pending_tasks(), id) <==> (live(
                        self.ready_tasks(),
                        self.pending_tasks(),
                        id,
                    ) || (self.completed_ids().contains(id) && !old(self).completed_ids(
                    ).contains(id))),
                log_view(l0).is_prefix_of(log_view(log@)),
                fast ==> (self.pending_tasks() == Seq::<Task>::empty() && bridge.events() == old(
                    bridge,
                ).events() && bridge.interest() == old(bridge).interest() && all_emit(
                    self.ready_tasks(),
                ) && log_view(log@) + round_robin_output(task_models(self.ready_tasks()))
                    == log_view(l0) + round_robin_output(q0)),
            decreases 2 * sum_yields(task_models(self.ready@)) + 2 * sum_yields(
                task_models(self.pending@),
            ) + self.ready@.len(),
        {
            let ghost ready_before = self.ready@;
            let ghost pending_before = self.pending@;
            let ghost log_before = log@;
            let mut task = self.ready.pop_front().unwrap();
            let ghost t0 = task;
            let ghost completed_head = self.completed@;
            let ghost ready1 = ready_before.drop_first();
            proof {
                assert(self.ready@ =~= ready1);
                assert forall|a: int, b: int| 0 <= a < b < ready1.len() implies (
                #[trigger] ready1[a]).id_spec() != (#[trigger] ready1[b]).id_spec() by {
                    assert(ready1[a] == ready_before[a + 1] && ready1[b] == ready_before[b + 1]);
                }
                assert forall|a: int, b: int|
                    0 <= a < ready1.len() && 0 <= b < pending_before.len() implies (
                #[trigger] ready1[a]).id_spec() != (#[trigger] pending_before[b]).id_spec() by {
                    assert(ready1[a] == ready_before[a + 1]);
                }
                assert forall|a: int| 0 <= a < ready1.len() implies !self.completed@.contains(
                    (#[trigger] ready1[a]).id_spec(),
                ) by {
                    assert(ready1[a] == ready_before[a + 1]);
                }
                assert forall|a: int| 0 <= a < ready1.len() implies ((
                #[trigger] ready1[a]).comp() is Consume ==> bridge.is_initialized()) by {
                    assert(ready1[a] == ready_before[a + 1]);
                }
                assert(t0.comp() is Consume ==> bridge.is_initialized());
                assert(task_models(ready1) =~= task_models(ready_before).drop_first());
            }
            match task.poll(bridge, log) {
                Poll::Ready(_) => {
                    // the task reported completion: drop it, retire its
                    // identifier (a Consume computation never reaches here)
                    let ghost tid = t0.id_spec();
                    self.completed = Ghost(self.completed@.insert(tid));
                    proof {
                        assert forall|a: int|
                            0 <= a < self.ready@.len() implies !self.completed@.contains(
                            (#[trigger] self.ready@[a]).id_spec(),
                        ) by {
                            assert(self.ready@[a] == ready_before[a + 1]);
                            assert(ready_before[0].id_spec() != ready_before[a + 1].id_spec());
                        }
                        assert forall|a: int|
                            0 <= a < self.pending@.len() implies !self.completed@.contains(
                            (#[trigger] self.pending@[a]).id_spec(),
                        ) by {
                            assert(ready_before[0].id_spec() != pending_before[a].id_spec());
                        }
                        let v = emit_model(t0.comp()).1;
                        lemma_log_view_push(log_before, Output::Number(v));
                        assert(log_view(log@) =~= log_view(log_before) + seq![
                            OutputModel::Number(v),
                        ]);
                        lemma_prefix_extends(
                            log_view(l0),
                            log_view(log_before),
                            seq![OutputModel::Number(v)],
                        );
                        if fast {
                            assert(log_view(log_before).push(OutputModel::Number(v))
                                + round_robin_output(task_models(self.ready@)) =~= log_view(
                                log_before,
                            ) + (seq![OutputModel::Number(v)] + round_robin_output(
                                task_models(self.ready@),
                            )));
                        }
                    }
                },
                Poll::Pending => {
                    // not ready: park it in the pending table; if it woke
                    // itself, the wake below re-queues it immediately
                    proof {
                        let p1 = pending_before.push(task);
                        assert forall|a: int, b: int| 0 <= a < b < p1.len() implies (
                        #[trigger] p1[a]).id_spec() != (#[trigger] p1[b]).id_spec() by {
                            if b < pending_before.len() {
                                assert(p1[a] == pending_before[a] && p1[b] == pending_before[b]);
                            } else {
                                assert(p1[a] == pending_before[a] && p1[b] == task);
                                assert(ready_before[0].id_spec() != pending_before[a].id_spec());
                            }
                        }
                        assert forall|a: int, b: int|
                            0 <= a < ready1.len() && 0 <= b < p1.len() implies (
                        #[trigger] ready1[a]).id_spec() != (#[trigger] p1[b]).id_spec() by {
                            assert(ready1[a] == ready_before[a + 1]);
                            if b < pending_before.len() {
                                assert(p1[b] == pending_before[b]);
                            } else {
                                assert(p1[b] == task);
                                assert(ready_before[0].id_spec() != ready_before[a + 1].id_spec());
                            }
                        }
                        assert forall|a: int| 0 <= a < p1.len() implies !self.completed@.contains(
                            (#[trigger] p1[a]).id_spec(),
                        ) by {
                            if a < pending_before.len() {
                                assert(p1[a] == pending_before[a]);
                            } else {
                                assert(p1[a] == task);
                            }
                        }
                        assert forall|a: int| 0 <= a < p1.len() implies ((
                        #[trigger] p1[a]).comp() is Consume ==> bridge.is_initialized()) by {
                            if a < pending_before.len() {
                                assert(p1[a] == pending_before[a]);
                            } else {
                                assert(p1[a] == task);
                            }
                        }
                        assert(task_models(p1) =~= task_models(pending_before).push(
                            emit_model(task.comp()),
                        ));
                        lemma_sum_yields_push(
                            task_models(pending_before),
                            emit_model(task.comp()),
                        );
                    }
                    self.pending.push(task);
                },
            }
            // honor the self-wake, if the task yielded
            let mut ids = bridge.take_woken();
            if let Some(id) = ids.pop() {
                let ghost pending2 = self.pending@;
                proof {
                    // the only wake a poll can issue names the polled task,
                    // which now stands at the end of the pending table
                    assert(id == t0.id_spec());
                    assert(pending2 == pending_before.push(task));
                    assert(pending2[pending_before.len() as int] == task);
                    assert(has_id(pending2, id));
                    let j = id_index(pending2, id);
                    assert(0 <= j < pending2.len() && pending2[j].id_spec() == id);
                    if j != pending_before.len() as int {
                        assert(pending2[j].id_spec() != pending2[pending_before.len() as int].id_spec());
                        assert(false);
                    }
                    lemma_pollable_move(self.ready@, pending2, j, bridge.is_initialized());
                }
                self.wake_task(id);
                proof {
                    assert(self.pending@ =~= pending_before);
                    assert(self.ready@ == ready1.push(task));
                    assert(task_models(self.ready@) =~= task_models(ready1).push(
                        emit_model(task.comp()),
                    ));
                    lemma_sum_yields_push(task_models(ready1), emit_model(task.comp()));
                    if fast {
                        assert(self.pending@ =~= Seq::<Task>::empty());
                        assert forall|a: int| 0 <= a < self.ready@.len() implies (
                        #[trigger] self.ready@[a]).comp() is Emit by {
                            if a < ready1.len() {
                                assert(self.ready@[a] == ready_before[a + 1]);
                            } else {
                                assert(self.ready@[a] == task);
                            }
                        }
                        assert(task_models(ready_before)[0] == emit_model(t0.comp()));
                    }
                }
            }
            // every identifier that was live at the head of this iteration is
            // still live, or was retired as completed just now
            proof {
                assert(ready_before[0] == t0);
                assert(!completed_head.contains(t0.id_spec()));
                assert forall|idq: u64|
                    live(old(self).ready_tasks(), old(self).pending_tasks(), idq) <==> (live(
                        self.ready_tasks(),
                        self.pending_tasks(),
                        idq,
                    ) || (self.completed_ids().contains(idq) && !old(self).completed_ids(
                    ).contains(idq))) by {
                    lemma_has_id_drop_first(ready_before, idq);
                    lemma_has_id_push(pending_before, task, idq);
                    lemma_has_id_push(ready1, task, idq);
                    assert(live(ready_before, pending_before, idq) <==> (live(
                        self.ready_tasks(),
                        self.pending_tasks(),
                        idq,
                    ) || (self.completed_ids().contains(idq) && !completed_head.contains(idq))));
                }
            }
        }
        proof {
            assert(self.ready@ =~= Seq::<Task>::empty());
            assert(task_models(self.ready@) =~= Seq::<(u64, u64)>::empty());
            assert(log_view(log@) + round_robin_output(task_models(self.ready@)) =~= log_view(
                log@,
            ));
        }
    }
}

} // verus!
