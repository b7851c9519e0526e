//! Tasks: suspendable computations paired with unique identifiers.
//!
//! A task wraps one suspended computation. Creating a task draws the next
//! identifier from a monotonic counter, so identifiers are strictly increasing
//! in creation order and never reused, even after the owning task is gone.

use vstd::prelude::*;
use crate::keyboard::{
    decode_scancode, decoded_outputs, decoded_text, decoder_history, keyboard_new, Bridge, Decoder,
    ScancodeStream,
};
use crate::{lemma_log_view_push, log_view, Output, OutputModel, Poll};

verus! {

/// Identifier of a task: an opaque unsigned integer, unique for the process
/// lifetime.
#[derive(Clone, Copy, PartialEq, Eq, Structural, Debug)]
pub struct TaskID(u64);

impl View for TaskID {
    type V = u64;

    closed spec fn view(&self) -> u64 {
        self.0
    }
}

/// The monotonic counter task identifiers are drawn from: one per process,
/// threaded explicitly instead of held in a global.
pub struct TaskIdCounter {
    next: u64,
}

impl View for TaskIdCounter {
    type V = u64;

    /// The identifier the next creation will receive.
    closed spec fn view(&self) -> u64 {
        self.next
    }
}

impl TaskIdCounter {
    /// A counter that hands out identifiers from zero upward.
    pub fn new() -> (c: TaskIdCounter)
        ensures
            c@ == 0,
    {
        TaskIdCounter { next: 0 }
    }
}

impl TaskID {
    /// Draws the next identifier: fetch-and-increment, no reuse. The counter
    /// must not have been exhausted (identifiers never wrap, or uniqueness
    /// would be lost).
    pub fn new(counter: &mut TaskIdCounter) -> (id: TaskID)
        requires
            old(counter)@ < u64::MAX,
        ensures
            id@ == old(counter)@,
            final(counter)@ == old(counter)@ + 1,
    {
        let id = TaskID(counter.next);
        counter.next = counter.next + 1;
        id
    }
}

/// The identifiers produced by `n` successive creations starting from a
/// counter standing at `start`.
pub open spec fn ids_from(start: u64, n: nat) -> Seq<u64> {
    Seq::new(n, |i: int| (start + i) as u64)
}

/// Uniqueness: the identifiers of any sequence of task creations are pairwise
/// distinct, and strictly increasing in creation order.
pub proof fn lemma_task_ids_strictly_increasing(start: u64, n: nat)
    requires
        start + n <= u64::MAX + 1,
    ensures
        forall|i: int, j: int|
            0 <= i < j < n ==> #[trigger] ids_from(start, n)[i] < #[trigger] ids_from(start, n)[j],
        forall|i: int, j: int|
            0 <= i < n && 0 <= j < n && i != j ==> #[trigger] ids_from(start, n)[i]
                != #[trigger] ids_from(start, n)[j],
{
}

/// A suspended computation: a task's unit of work, driven ("polled") to either
/// a final report or "not ready yet". It must be resumed later through the
/// wake protocol whenever it reports not ready.
pub enum Computation {
    /// Suspends `yields_remaining` more times — waking itself immediately each
    /// time, since it stays runnable — then prints its value and completes.
    Emit { yields_remaining: u64, value: u64 },
    /// Never completes: consumes the scancode stream and prints each decoded
    /// key.
    Consume { stream: ScancodeStream, decoder: Decoder },
}

impl Computation {
    /// The bytes this computation has consumed from the stream so far.
    pub open spec fn consumed(&self) -> Seq<u8> {
        match self {
            Computation::Consume { decoder, .. } => decoder_history(*decoder),
            _ => Seq::<u8>::empty(),
        }
    }

    /// The event-consuming computation, with a fresh decoder.
    pub fn consume(stream: ScancodeStream) -> (c: Computation)
        ensures
            c is Consume,
            c.consumed() == Seq::<u8>::empty(),
    {
        Computation::Consume { stream, decoder: keyboard_new() }
    }
}

/// A schedulable unit: one suspended computation plus a unique identifier. The
/// computation is heap-owned and, once polled, never moved by this crate.
pub struct Task {
    pub(crate) id: TaskID,
    pub(crate) computation: Computation,
}

impl Task {
    /// The task's identifier.
    pub closed spec fn id_spec(&self) -> u64 {
        self.id@
    }

    /// The task's computation.
    pub closed spec fn comp(&self) -> Computation {
        self.computation
    }

    /// Creates a task owning `computation`, under the next identifier from the
    /// process-wide counter.
    pub fn new(computation: Computation, counter: &mut TaskIdCounter) -> (t: Task)
        requires
            old(counter)@ < u64::MAX,
        ensures
            t.id_spec() == old(counter)@,
            t.comp() == computation,
            final(counter)@ == old(counter)@ + 1,
    {
        Task { id: TaskID::new(counter), computation }
    }

    /// The task's identifier, for callers outside the crate.
    pub fn id(&self) -> (r: u64)
        ensures
            r == self.id_spec(),
    {
        self.id.0
    }

    /// Drives the owned computation once and forwards its report verbatim:
    /// ready-with-unit, or not-ready.
    ///
    /// An `Emit` computation with suspensions left consumes one, wakes itself
    /// (it stays runnable) and reports not-ready; out of suspensions, it
    /// prints its value and completes. A `Consume` computation drains every
    /// queued byte in FIFO order through the decoder, prints each decoded
    /// key, leaves its interest registered and reports not-ready — it never
    /// completes.
    pub fn poll(&mut self, bridge: &mut Bridge, log: &mut Vec<Output>) -> (r: Poll<()>)
        requires
            old(bridge).wf(),
            old(self).comp() is Consume ==> old(bridge).is_initialized(),
        ensures
            final(bridge).wf(),
            final(self).id_spec() == old(self).id_spec(),
            final(bridge).is_initialized() == old(bridge).is_initialized(),
            final(bridge).capacity() == old(bridge).capacity(),
            old(self).comp() matches Computation::Emit { yields_remaining, value } ==> ((
            yields_remaining > 0 ==> (r == Poll::<()>::Pending && final(self).comp() == (
            Computation::Emit { yields_remaining: (yields_remaining - 1) as u64, value })
                && final(log)@ == old(log)@ && final(bridge).events() == old(bridge).events()
                && final(bridge).interest() == old(bridge).interest() && final(bridge).woken()
                == old(bridge).woken().push(old(self).id_spec()))) && (yields_remaining == 0 ==> (r
                == Poll::Ready(()) && final(self).comp() == old(self).comp() && final(log)@ == old(
                log,
            )@.push(Output::Number(value)) && *final(bridge) == *old(bridge)))),
            old(self).comp() is Consume ==> (r == Poll::<()>::Pending && final(self).comp()
                is Consume && final(self).comp().consumed() == old(self).comp().consumed() + old(
                bridge,
            ).events() && log_view(final(log)@) == log_view(old(log)@) + decoded_outputs(
                old(self).comp().consumed(),
                old(bridge).events(),
            ) && final(bridge).events() == Seq::<u8>::empty() && final(bridge).interest() == Some(
                old(self).id_spec(),
            ) && final(bridge).woken() == old(bridge).woken()),
    {
        let id = self.id.0;
        // take ownership of the computation for the duration of the poll,
        // leaving a harmless placeholder in its place
        let mut computation = Computation::Emit { yields_remaining: 0, value: 0 };
        core::mem::swap(&mut computation, &mut self.computation);
        match computation {
            Computation::Emit { yields_remaining, value } => {
                if yields_remaining > 0 {
                    self.computation = Computation::Emit {
                        yields_remaining: yields_remaining - 1,
                        value,
                    };
                    bridge.wake(id);
                    Poll::Pending
                } else {
                    self.computation = Computation::Emit { yields_remaining, value };
                    log.push(Output::Number(value));
                    Poll::Ready(())
                }
            },
            Computation::Consume { mut stream, mut decoder } => {
                let ghost history0 = decoder_history(decoder);
                let ghost events0 = bridge.events();
                let ghost log0 = log@;
                loop
                    invariant_except_break
                        bridge.interest() == old(bridge).interest(),
                    invariant
                        bridge.wf(),
                        bridge.is_initialized(),
                        bridge.capacity() == old(bridge).capacity(),
                        bridge.woken() == old(bridge).woken(),
                        decoder_history(decoder) + bridge.events() == history0 + events0,
                        log_view(log@) + decoded_outputs(decoder_history(decoder), bridge.events())
                            == log_view(log0) + decoded_outputs(history0, events0),
                    ensures
                        bridge.wf(),
                        bridge.is_initialized(),
                        bridge.capacity() == old(bridge).capacity(),
                        bridge.woken() == old(bridge).woken(),
                        bridge.events() == Seq::<u8>::empty(),
                        bridge.interest() == Some(id),
                        decoder_history(decoder) == history0 + events0,
                        log_view(log@) == log_view(log0) + decoded_outputs(history0, events0),
                    decreases bridge.events().len(),
                {
                    let ghost history_before = decoder_history(decoder);
                    let ghost events_before = bridge.events();
                    let ghost log_before = log@;
                    match stream.poll_next(bridge, id) {
                        Poll::Ready(code) => {
                            proof {
                                assert(decoded_outputs(history_before, events_before) == (
                                match decoded_text(history_before, code) {
                                    Some(t) => seq![OutputModel::Text(t)],
                                    None => Seq::<OutputModel>::empty(),
                                }) + decoded_outputs(
                                    history_before.push(code),
                                    events_before.drop_first(),
                                ));
                            }
                            match decode_scancode(&mut decoder, code) {
                                Some(text) => {
                                    let ghost text_model = OutputModel::Text(text@);
                                    log.push(Output::Text(text));
                                    proof {
                                        lemma_log_view_push(log_before, Output::Text(text));
                                        assert(log_view(log_before).push(text_model)
                                            + decoded_outputs(
                                            history_before.push(code),
                                            events_before.drop_first(),
                                        ) =~= log_view(log_before) + decoded_outputs(
                                            history_before,
                                            events_before,
                                        ));
                                        assert(history_before.push(code)
                                            + events_before.drop_first() =~= history_before
                                            + events_before);
                                    }
                                },
                                None => {
                                    proof {
                                        assert(log_view(log_before) + decoded_outputs(
                                            history_before.push(code),
                                            events_before.drop_first(),
                                        ) =~= log_view(log_before) + decoded_outputs(
                                            history_before,
                                            events_before,
                                        ));
                                        assert(history_before.push(code)
                                            + events_before.drop_first() =~= history_before
                                            + events_before);
                                    }
                                },
                            }
                        },
                        Poll::Pending => {
                            proof {
                                assert(decoded_outputs(
                                    decoder_history(decoder),
                                    bridge.events(),
                                ) =~= Seq::<OutputModel>::empty());
                                assert(decoder_history(decoder) + bridge.events()
                                    =~= decoder_history(decoder));
                                assert(log_view(log@) + Seq::<OutputModel>::empty() =~= log_view(
                                    log@,
                                ));
                                assert(log_view(log0) + decoded_outputs(history0, events0)
                                    =~= log_view(log@));
                            }
                            break ;
                        },
                    }
                }
                self.computation = Computation::Consume { stream, decoder };
                Poll::Pending
            },
        }
    }
}

} // verus!
