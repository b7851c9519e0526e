//! Very simple scheduler: polls each queued task sequentially, with a no-op
//! notifier, until all are done.
//!
//! This is a correctness oracle for task bodies with no external event
//! dependency: it busy-polls, so it is not acceptable as a production idle
//! loop, but any printing task it drives prints exactly what the full
//! scheduler prints (both meet [`round_robin_output`]).

use vstd::prelude::*;
use std::collections::VecDeque;
use crate::keyboard::Bridge;
use crate::task::{Computation, Task};
use crate::{lemma_log_view_push, log_view, Output, OutputModel};
use crate::Poll;

verus! {

/// Suspensions left and value to print, for a printing task (`(0, 0)` for the
/// consuming task, which prints nothing by itself).
pub open spec fn emit_model(c: Computation) -> (u64, u64) {
    match c {
        Computation::Emit { yields_remaining, value } => (yields_remaining, value),
        _ => (0u64, 0u64),
    }
}

/// Every one of these tasks is a printing task.
pub open spec fn all_emit(tasks: Seq<Task>) -> bool {
    forall|i: int| 0 <= i < tasks.len() ==> #[trigger] tasks[i].comp() is Emit
}

/// The models of these tasks, front to back.
pub open spec fn task_models(tasks: Seq<Task>) -> Seq<(u64, u64)> {
    tasks.map_values(|t: Task| emit_model(t.comp()))
}

/// Total number of suspensions the modeled tasks have left.
pub open spec fn sum_yields(q: Seq<(u64, u64)>) -> nat
    decreases q.len(),
{
    if q.len() == 0 {
        0
    } else {
        q[0].0 as nat + sum_yields(q.drop_first())
    }
}

/// Appending one task adds its suspensions to the total.
pub proof fn lemma_sum_yields_push(q: Seq<(u64, u64)>, x: (u64, u64))
    ensures
        sum_yields(q.push(x)) == sum_yields(q) + x.0,
    decreases q.len(),
{
    if q.len() == 0 {
        assert(q.push(x).drop_first() =~= q);
    } else {
        assert(q.push(x).drop_first() =~= q.drop_first().push(x));
        lemma_sum_yields_push(q.drop_first(), x);
    }
}

/// What round-robin scheduling prints for this queue of printing tasks: the
/// front task prints its value and leaves when out of suspensions, otherwise
/// it spends one suspension and goes to the back of the queue.
///
/// Both the baseline scheduler and the full scheduler meet this same
/// function, so for printing tasks the two produce the same printed sequence.
pub open spec fn round_robin_output(q: Seq<(u64, u64)>) -> Seq<OutputModel>
    decreases sum_yields(q), q.len(),
    via round_robin_output_decreases
{
    if q.len() == 0 {
        Seq::<OutputModel>::empty()
    } else if q[0].0 == 0 {
        seq![OutputModel::Number(q[0].1)] + round_robin_output(q.drop_first())
    } else {
        round_robin_output(q.drop_first().push(((q[0].0 - 1) as u64, q[0].1)))
    }
}

#[via_fn]
proof fn round_robin_output_decreases(q: Seq<(u64, u64)>) {
    if q.len() > 0 && q[0].0 > 0 {
        lemma_sum_yields_push(q.drop_first(), (((q[0].0 - 1) as u64, q[0].1)));
    }
}

/// The baseline scheduler: a single FIFO ready queue, no waker integration.
pub struct SimpleExecutor {
    task_queue: VecDeque<Task>,
}

impl SimpleExecutor {
    /// The queued tasks, front first.
    pub closed spec fn queue(&self) -> Seq<Task> {
        self.task_queue@
    }

    /// Creates an executor with no queued tasks.
    pub fn new() -> (e: SimpleExecutor)
        ensures
            e.queue() == Seq::<Task>::empty(),
    {
        SimpleExecutor { task_queue: VecDeque::new() }
    }

    /// Adds the task to the back of the queue.
    pub fn spawn(&mut self, task: Task)
        ensures
            final(self).queue() == old(self).queue().push(task),
    {
        self.task_queue.push_back(task)
    }

    /// Runs every queued task to completion, round-robin: pop the front task,
    /// poll it with a no-op notifier, discard it when ready, requeue it at the
    /// back when not. What gets printed is exactly `round_robin_output` of the
    /// queue's models.
    ///
    /// Only printing tasks may be queued: the event-consuming task never
    /// completes, so this busy-polling loop would never terminate on it.
    pub fn run(&mut self, bridge: &mut Bridge, log: &mut Vec<Output>)
        requires
            old(bridge).wf(),
            all_emit(old(self).queue()),
        ensures
            final(bridge).wf(),
            final(self).queue() == Seq::<Task>::empty(),
            log_view(final(log)@) == log_view(old(log)@) + round_robin_output(
                task_models(old(self).queue()),
            ),
            final(bridge).is_initialized() == old(bridge).is_initialized(),
            final(bridge).capacity() == old(bridge).capacity(),
            final(bridge).events() == old(bridge).events(),
            final(bridge).interest() == old(bridge).interest(),
    {
        let ghost q0 = task_models(old(self).queue());
        let ghost l0 = log@;
        while self.task_queue.len() != 0
            invariant
                bridge.wf(),
                bridge.is_initialized() == old(bridge).is_initialized(),
                bridge.capacity() == old(bridge).capacity(),
                bridge.events() == old(bridge).events(),
                bridge.interest() == old(bridge).interest(),
                all_emit(self.task_queue@),
                log_view(log@) + round_robin_output(task_models(self.task_queue@)) == log_view(l0)
                    + round_robin_output(q0),
            decreases sum_yields(task_models(self.task_queue@)) + self.task_queue@.len(),
        {
            let ghost queue_before = self.task_queue@;
            let ghost log_before = log@;
            let mut task = self.task_queue.pop_front().unwrap();
            proof {
                assert(task_models(queue_before.drop_first()) =~= task_models(
                    queue_before,
                ).drop_first());
            }
            match task.poll(bridge, log) {
                Poll::Ready(_) => {
                    // task done
                    proof {
                        let v = emit_model(task.comp()).1;
                        lemma_log_view_push(log_before, Output::Number(v));
                        assert(log_view(log_before).push(OutputModel::Number(v))
                            + round_robin_output(task_models(self.task_queue@)) =~= log_view(
                            log_before,
                        ) + (seq![OutputModel::Number(v)] + round_robin_output(
                            task_models(self.task_queue@),
                        )));
                    }
                },
                Poll::Pending => {
                    let ghost polled = task;
                    self.task_queue.push_back(task);
                    proof {
                        assert(task_models(self.task_queue@) =~= task_models(
                            queue_before,
                        ).drop_first().push(emit_model(polled.comp())));
                        lemma_sum_yields_push(
                            task_models(queue_before).drop_first(),
                            emit_model(polled.comp()),
                        );
                    }
                },
            }
        }
        proof {
            assert(self.task_queue@ =~= Seq::<Task>::empty());
            assert(log_view(log@) + round_robin_output(task_models(self.task_queue@)) =~= log_view(
                log@,
            ));
        }
    }
}

impl Default for SimpleExecutor {
    /// An executor with no queued tasks.
    fn default() -> (e: Self)
        ensures
            e.queue() == Seq::<Task>::empty(),
    {
        Self::new()
    }
}

} // verus!
