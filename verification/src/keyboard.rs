//! Interrupt-to-task bridge for keyboard scancodes.
//!
//! An interrupt handler pushes a raw scancode through [`Bridge::add_scancode`]
//! — the queue insert is lock-free, never blocks and never allocates — and
//! thereby signals the completion notifier. The consuming task polls [`ScancodeStream`], which
//! closes the check/sleep race with the register-then-re-check protocol: a
//! byte pushed between the poll's emptiness check and its registration is
//! either caught by the mandatory re-check or wakes the now-registered
//! notifier, so no wakeup is lost.

use vstd::prelude::*;
use pc_keyboard::{layouts, DecodedKey, HandleControl, PS2Keyboard, ScancodeSet1};
use crate::event_queue::{push_tail_drop, EventQueue, QUEUE_CAPACITY};
use crate::notifier::Notifier;
use crate::{OutputModel, Poll};

verus! {

/// Stateful scancode decoder: pc_keyboard's `PS2Keyboard`, held opaquely
/// because Verus refuses the trait bounds on that type's declaration. Its
/// state is described by `decoder_history` alone.
#[verifier::external_body]
pub struct Decoder {
    inner: PS2Keyboard<layouts::Azerty, ScancodeSet1>,
}

/// The bytes fed to the decoder so far, oldest first.
pub uninterp spec fn decoder_history(k: Decoder) -> Seq<u8>;

/// The text, if any, that an AZERTY scancode-set-1 decoder with control-key
/// mapping off prints for the byte `code` arriving after the bytes `history`.
pub uninterp spec fn decoded_text(history: Seq<u8>, code: u8) -> Option<Seq<char>>;

/// Relies on pc_keyboard's `PS2Keyboard::new`: a fresh decoder that has seen
/// no bytes. This is the crate's only decoder constructor; it fixes the AZERTY
/// layout, scancode set 1 and `HandleControl::Ignore`, so a decoder's state is
/// determined by the bytes it has seen.
#[verifier::external_body]
pub(crate) fn keyboard_new() -> (k: Decoder)
    ensures
        decoder_history(k) == Seq::<u8>::empty(),
{
    Decoder { inner: PS2Keyboard::new(ScancodeSet1::new(), layouts::Azerty, HandleControl::Ignore) }
}

/// Relies on pc_keyboard's `PS2Keyboard::add_byte` and `process_keyevent`:
/// together they advance the decoder by exactly one byte, and the key they
/// decode — rendered as text, the character itself for a printable key and a
/// debug name for the rest — is a function of the bytes the decoder has seen,
/// since layout, scancode set and control handling are fixed at construction
/// (see `keyboard_new`). A byte that completes no key yields no text.
#[verifier::external_body]
pub(crate) fn decode_scancode(k: &mut Decoder, code: u8) -> (r: Option<String>)
    ensures
        decoder_history(*final(k)) == decoder_history(*old(k)).push(code),
        match r {
            Some(s) => decoded_text(decoder_history(*old(k)), code) == Some(s@),
            None => decoded_text(decoder_history(*old(k)), code) == None::<Seq<char>>,
        },
{
    match k.inner.add_byte(code) {
        Ok(Some(event)) => match k.inner.process_keyevent(event) {
            Some(DecodedKey::Unicode(c)) => Some(format!("{}", c)),
            Some(DecodedKey::RawKey(raw)) => Some(format!("{:?}", raw)),
            None => None,
        },
        Ok(None) => None,
        Err(_) => None,
    }
}

/// The outputs printed when a decoder with byte history `history` consumes
/// `events` in order: one text item per byte that completes a key.
pub open spec fn decoded_outputs(history: Seq<u8>, events: Seq<u8>) -> Seq<OutputModel>
    decreases events.len(),
{
    if events.len() == 0 {
        Seq::<OutputModel>::empty()
    } else {
        (match decoded_text(history, events[0]) {
            Some(t) => seq![OutputModel::Text(t)],
            None => Seq::<OutputModel>::empty(),
        }) + decoded_outputs(history.push(events[0]), events.drop_first())
    }
}

/// How one push outcome is reported to the interrupt handler. Failures are
/// absorbed here — an interrupt handler has no caller able to react — and the
/// outcome value is the diagnostic handed to the operator channel.
#[derive(Clone, Copy, PartialEq, Eq, Structural, Debug)]
pub enum PushOutcome {
    /// The byte was enqueued and the notifier signaled.
    Delivered,
    /// Every slot was taken: the newest byte was dropped, nothing signaled.
    DroppedFull,
    /// No queue exists yet: the byte was dropped, nothing signaled.
    DroppedUninitialized,
}

/// Failure of the one-time stream construction.
#[derive(Clone, Copy, PartialEq, Eq, Structural, Debug)]
pub enum StreamError {
    /// A second consumer tried to acquire the singleton stream: a programmer
    /// error, surfaced at construction time, since two consumers racing on the
    /// same bounded queue would break the wake protocol.
    DoubleInitialization,
}

/// Cross-context state shared by the interrupt handlers (producers) and the
/// scheduler polling the consuming task: the scancode queue, the completion
/// notifier, and the wake list into which a signaled notifier drops the
/// identifier of the task to re-queue.
///
/// This owned value replaces process-wide globals, making the single-consumer
/// contract explicit at call sites.
pub struct Bridge {
    queue: Option<EventQueue>,
    notifier: Notifier,
    woken: Vec<u64>,
}

impl Bridge {
    /// Whether the scancode queue has been created (it is created lazily,
    /// exactly once, by `ScancodeStream::new`).
    pub closed spec fn is_initialized(&self) -> bool {
        self.queue is Some
    }

    /// The queued bytes, oldest first (empty while uninitialized).
    pub closed spec fn events(&self) -> Seq<u8> {
        match self.queue {
            Some(q) => q@,
            None => Seq::<u8>::empty(),
        }
    }

    /// The queue's slot count.
    pub closed spec fn capacity(&self) -> nat {
        match self.queue {
            Some(q) => q.capacity(),
            None => QUEUE_CAPACITY as nat,
        }
    }

    /// The currently registered interest.
    pub closed spec fn interest(&self) -> Option<u64> {
        self.notifier@
    }

    /// Identifiers of tasks whose notifier fired and that await re-queueing.
    pub closed spec fn woken(&self) -> Seq<u64> {
        self.woken@
    }

    pub open spec fn wf(&self) -> bool {
        &&& self.events().len() <= self.capacity()
        &&& self.capacity() == QUEUE_CAPACITY as nat
    }

    /// A bridge with no queue, no registered interest and no pending wakes.
    pub fn new() -> (b: Bridge)
        ensures
            b.wf(),
            !b.is_initialized(),
            b.events() == Seq::<u8>::empty(),
            b.interest() == None::<u64>,
            b.woken() == Seq::<u64>::empty(),
    {
        Bridge { queue: None, notifier: Notifier::new(), woken: Vec::new() }
    }

    /// Interrupt-side entry point: pushes one raw scancode without blocking
    /// or suspending (the queue insert itself also never allocates). With
    /// room in the queue the byte is enqueued
    /// and the notifier signaled; on a full queue the newest byte is dropped
    /// and nothing is signaled (nothing new became available); before the
    /// queue exists the byte is dropped. Dropped bytes are reported in the
    /// outcome, never propagated: interrupt context cannot unwind.
    pub fn add_scancode(&mut self, code: u8) -> (r: PushOutcome)
        requires
            old(self).wf(),
        ensures
            final(self).wf(),
            final(self).is_initialized() == old(self).is_initialized(),
            final(self).capacity() == old(self).capacity(),
            !old(self).is_initialized() ==> (r == PushOutcome::DroppedUninitialized && *final(self)
                == *old(self)),
            old(self).is_initialized() ==> final(self).events() == push_tail_drop(
                old(self).events(),
                code,
                old(self).capacity(),
            ),
            old(self).is_initialized() && old(self).events().len() < old(self).capacity() ==> (r
                == PushOutcome::Delivered && final(self).interest() == None::<u64>
                && final(self).woken() == (match old(self).interest() {
                Some(id) => old(self).woken().push(id),
                None => old(self).woken(),
            })),
            old(self).is_initialized() && old(self).events().len() >= old(self).capacity() ==> (r
                == PushOutcome::DroppedFull && final(self).interest() == old(self).interest()
                && final(self).woken() == old(self).woken()),
    {
        match &mut self.queue {
            Some(q) => {
                if q.push(code) {
                    self.notifier.signal(&mut self.woken);
                    PushOutcome::Delivered
                } else {
                    PushOutcome::DroppedFull
                }
            },
            None => PushOutcome::DroppedUninitialized,
        }
    }

    /// Task-side pop of the oldest queued byte.
    pub fn pop_event(&mut self) -> (r: Option<u8>)
        requires
            old(self).wf(),
            old(self).is_initialized(),
        ensures
            final(self).wf(),
            final(self).is_initialized(),
            final(self).capacity() == old(self).capacity(),
            final(self).interest() == old(self).interest(),
            final(self).woken() == old(self).woken(),
            old(self).events().len() == 0 ==> (r == None::<u8>
                && final(self).events() == old(self).events()),
            old(self).events().len() > 0 ==> (r == Some(old(self).events()[0])
                && final(self).events() == old(self).events().drop_first()),
    {
        match &mut self.queue {
            Some(q) => q.pop(),
            None => None,
        }
    }

    /// Appends a task identifier to the wake list directly: how a notifier
    /// bound to that task delivers its signal, and how a task that suspends
    /// while still runnable wakes itself before reporting not-ready.
    pub fn wake(&mut self, id: u64)
        requires
            old(self).wf(),
        ensures
            final(self).wf(),
            final(self).is_initialized() == old(self).is_initialized(),
            final(self).capacity() == old(self).capacity(),
            final(self).events() == old(self).events(),
            final(self).interest() == old(self).interest(),
            final(self).woken() == old(self).woken().push(id),
    {
        self.woken.push(id);
    }

    /// Takes the accumulated wake list, leaving it empty. The scheduler drains
    /// this to re-queue suspended tasks.
    pub fn take_woken(&mut self) -> (ids: Vec<u64>)
        requires
            old(self).wf(),
        ensures
            final(self).wf(),
            final(self).is_initialized() == old(self).is_initialized(),
            final(self).capacity() == old(self).capacity(),
            final(self).events() == old(self).events(),
            final(self).interest() == old(self).interest(),
            final(self).woken() == Seq::<u64>::empty(),
            ids@ == old(self).woken(),
    {
        let mut taken: Vec<u64> = Vec::new();
        core::mem::swap(&mut taken, &mut self.woken);
        taken
    }
}

/// The consumer-facing stream of scancodes: an asynchronous, conceptually
/// infinite sequence of bytes. A singleton — its construction creates the one
/// scancode queue.
pub struct ScancodeStream {
    _private: (),
}

impl ScancodeStream {
    /// One-time, non-reentrant acquisition of the consumer side: creates the
    /// scancode queue. A second attempt is a programmer error and fails with
    /// `DoubleInitialization`, leaving the bridge untouched.
    pub fn new(bridge: &mut Bridge) -> (r: Result<ScancodeStream, StreamError>)
        requires
            old(bridge).wf(),
        ensures
            final(bridge).wf(),
            !old(bridge).is_initialized() ==> (r is Ok && final(bridge).is_initialized()
                && final(bridge).events() == Seq::<u8>::empty()
                && final(bridge).capacity() == QUEUE_CAPACITY as nat
                && final(bridge).interest() == old(bridge).interest() && final(bridge).woken()
                == old(bridge).woken()),
            old(bridge).is_initialized() ==> (r == Err::<ScancodeStream, StreamError>(
                StreamError::DoubleInitialization,
            ) && *final(bridge) == *old(bridge)),
    {
        if bridge.queue.is_some() {
            return Err(StreamError::DoubleInitialization);
        }
        bridge.queue = Some(EventQueue::with_capacity(QUEUE_CAPACITY));
        Ok(ScancodeStream { _private: () })
    }

    /// One poll of the stream. It never reports "no more events": it returns
    /// either the next byte or `Pending`, and in the latter case the caller's
    /// interest stands registered, so the next delivered byte wakes it.
    ///
    /// The protocol is: pop (fast path); on empty, register interest, then
    /// re-check the queue once more. The re-check is mandatory: without it, a
    /// byte pushed between the first check and the registration would signal a
    /// notifier not yet registered, and the caller would suspend forever.
    pub fn poll_next(&mut self, bridge: &mut Bridge, interest: u64) -> (r: Poll<u8>)
        requires
            old(bridge).wf(),
            old(bridge).is_initialized(),
        ensures
            final(bridge).wf(),
            final(bridge).is_initialized(),
            final(bridge).capacity() == old(bridge).capacity(),
            final(bridge).woken() == old(bridge).woken(),
            old(bridge).events().len() > 0 ==> (r == Poll::Ready(old(bridge).events()[0])
                && final(bridge).events() == old(bridge).events().drop_first()
                && final(bridge).interest() == old(bridge).interest()),
            old(bridge).events().len() == 0 ==> (r == Poll::<u8>::Pending && final(bridge).events()
                == old(bridge).events() && final(bridge).interest() == Some(interest)),
    {
        // fast path: an already-queued byte skips notifier registration
        if let Some(code) = bridge.pop_event() {
            return Poll::Ready(code);
        }
        bridge.notifier.register(interest);
        // mandatory re-check, closing the lost-wakeup window
        match bridge.pop_event() {
            Some(code) => {
                bridge.notifier.take();
                Poll::Ready(code)
            },
            None => Poll::Pending,
        }
    }

    /// Deterministic interleaving harness for the lost-wakeup race: one
    /// `poll_next` with a push forced to occur strictly between the poll's
    /// emptiness check and its notifier registration — the exact window in
    /// which a protocol without the re-check would lose the event. The poll
    /// still observes the byte.
    pub fn poll_next_racing_push(
        &mut self,
        bridge: &mut Bridge,
        interest: u64,
        code: u8,
    ) -> (r: Poll<u8>)
        requires
            old(bridge).wf(),
            old(bridge).is_initialized(),
            old(bridge).events().len() == 0,
        ensures
            r == Poll::Ready(code),
            final(bridge).wf(),
            final(bridge).is_initialized(),
            final(bridge).events() == old(bridge).events(),
            final(bridge).interest() == None::<u64>,
            final(bridge).woken() == (match old(bridge).interest() {
                Some(id) => old(bridge).woken().push(id),
                None => old(bridge).woken(),
            }),
    {
        if let Some(ready) = bridge.pop_event() {
            return Poll::Ready(ready);
        }
        // the racing interrupt fires here: strictly after the emptiness check
        // above and strictly before the registration below
        bridge.add_scancode(code);
        bridge.notifier.register(interest);
        match bridge.pop_event() {
            Some(found) => {
                bridge.notifier.take();
                Poll::Ready(found)
            },
            None => Poll::Pending,
        }
    }
}

} // verus!
