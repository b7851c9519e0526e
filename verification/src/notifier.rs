//! Completion notifier: a single-slot cross-context wake signal.
//!
//! Interrupt context calls [`Notifier::signal`]; task context calls
//! [`Notifier::register`] (and [`Notifier::take`] to withdraw). At most one
//! interest — the identifier of whoever is currently waiting — is held at a
//! time.

use vstd::prelude::*;

verus! {

/// Single-slot wake signal. Its view is the currently registered interest.
pub struct Notifier {
    interest: Option<u64>,
}

impl View for Notifier {
    type V = Option<u64>;

    /// The identifier of the currently waiting party, if any.
    closed spec fn view(&self) -> Option<u64> {
        self.interest
    }
}

impl Notifier {
    /// A notifier with no registered interest.
    pub fn new() -> (n: Notifier)
        ensures
            n@ == None::<u64>,
    {
        Notifier { interest: None }
    }

    /// Registers an interest, replacing any previously registered one.
    pub fn register(&mut self, interest: u64)
        ensures
            final(self)@ == Some(interest),
    {
        self.interest = Some(interest);
    }

    /// Claims and clears the registered interest without signaling it.
    pub fn take(&mut self) -> (r: Option<u64>)
        ensures
            final(self)@ == None::<u64>,
            r == old(self)@,
    {
        let r = self.interest;
        self.interest = None;
        r
    }

    /// Notifies the registered interest, if any, by appending the identifier
    /// it names to the wake list, and clears it. Signaling with no registered
    /// interest is a harmless no-op, never an error: the producer cannot know
    /// whether a consumer is currently waiting.
    pub fn signal(&mut self, wake_list: &mut Vec<u64>)
        ensures
            final(self)@ == None::<u64>,
            final(wake_list)@ == (match old(self)@ {
                Some(id) => old(wake_list)@.push(id),
                None => old(wake_list)@,
            }),
    {
        match self.interest {
            Some(id) => {
                wake_list.push(id);
                self.interest = None;
            },
            None => {},
        }
    }
}

} // verus!
