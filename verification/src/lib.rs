//! Cooperative task layer of a small kernel: a single-threaded scheduler that
//! drives suspendable computations, fed by a bounded lock-free byte queue that
//! interrupt handlers fill and a single consuming task drains.
//!
//! The crate keeps the interrupt-shared state (event queue, completion
//! notifier, wake list) in an explicit [`keyboard::Bridge`] value threaded
//! through the APIs, so the single-producer-class/single-consumer contract is
//! visible at every call site.

use vstd::prelude::*;

pub mod event_queue;
pub mod executor;
pub mod keyboard;
pub mod notifier;
pub mod simple_executor;
pub mod task;

verus! {

/// Result of driving a suspended computation once, or of polling the event
/// stream once: either a final value, or a report that no progress can be made
/// until a later wake-up.
#[derive(PartialEq, Eq, Structural, Debug)]
pub enum Poll<T> {
    Ready(T),
    Pending,
}

/// One value printed by a task: the number a computing task produced, or the
/// text of one decoded key.
pub enum Output {
    Number(u64),
    Text(String),
}

/// Mathematical image of an [`Output`], with text as a character sequence.
pub enum OutputModel {
    Number(u64),
    Text(Seq<char>),
}

impl View for Output {
    type V = OutputModel;

    open spec fn view(&self) -> OutputModel {
        match self {
            Output::Number(n) => OutputModel::Number(*n),
            Output::Text(s) => OutputModel::Text(s@),
        }
    }
}

/// The mathematical image of a printed log.
pub open spec fn log_view(log: Seq<Output>) -> Seq<OutputModel> {
    log.map_values(|o: Output| o@)
}

/// Appending one printed value extends the log's image by its image.
pub proof fn lemma_log_view_push(log: Seq<Output>, o: Output)
    ensures
        log_view(log.push(o)) == log_view(log).push(o@),
{
    assert(log_view(log.push(o)) =~= log_view(log).push(o@));
}

} // verus!
