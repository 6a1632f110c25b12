//! A message's state. It is not stored: it follows from where the
//! message's file is and from what the dispatcher is doing.

use vstd::prelude::*;
use vstd::string::*;
use crate::dispatch::{resolution_of, succeeded, Dispatcher, DispatcherState, Outcome};
use crate::spool::{Spool, SpoolState};

verus! {

/// The state of a message.
#[derive(Clone, Copy, Debug, PartialEq, Eq, Structural)]
pub enum MessageState {
    /// Written to the pending area and not picked up.
    Queued,
    /// Handed to the transfer command and not resolved.
    InFlight,
    /// The spool holds no file of the message: it was delivered.
    Delivered,
    /// Moved to the failed area, where it stays until someone acts.
    Failed,
}

/// The state of the message `name`: from its file's area, and, for a
/// pending one, from whether the dispatcher's attempt on it is under way.
pub open spec fn state_of(spool: SpoolState, channel: DispatcherState, name: Seq<char>) -> MessageState {
    if spool.pending.dom().contains(name) {
        if channel.in_flight == Some(name) {
            MessageState::InFlight
        } else {
            MessageState::Queued
        }
    } else if spool.failed.dom().contains(name) {
        MessageState::Failed
    } else {
        MessageState::Delivered
    }
}

/// Tells the state of the message `name`.
pub fn message_state(spool: &Spool, dispatcher: &Dispatcher, name: &str) -> (state: MessageState)
    requires
        spool.wf(),
    ensures
        state == state_of(spool@, dispatcher@, name@),
{
    if spool.is_pending(name) {
        if dispatcher.is_in_flight(name) {
            MessageState::InFlight
        } else {
            MessageState::Queued
        }
    } else if spool.is_failed(name) {
        MessageState::Failed
    } else {
        MessageState::Delivered
    }
}

/// A new message is queued: once its file is written, and until the
/// dispatcher pulls its name, its state is `Queued`.
pub proof fn lemma_written_is_queued(
    spool: SpoolState,
    channel: DispatcherState,
    name: Seq<char>,
    body: Seq<u8>,
)
    requires
        channel.in_flight != Some(name),
    ensures
        state_of(spool.written(name, body), channel.notified(name), name) == MessageState::Queued,
{
}

/// A pending message whose name the dispatcher pulls is in flight.
pub proof fn lemma_started_is_in_flight(spool: SpoolState, channel: DispatcherState)
    requires
        channel.can_start(),
        spool.pending.dom().contains(channel.queue[0]),
    ensures
        state_of(spool, channel.started(), channel.queue[0]) == MessageState::InFlight,
{
}

/// A message in flight becomes delivered exactly when the transfer command
/// reports success, and failed exactly when it reports anything else or
/// did not run.
pub proof fn lemma_resolved(spool: SpoolState, channel: DispatcherState, name: Seq<char>, outcome: Outcome)
    requires
        state_of(spool, channel, name) == MessageState::InFlight,
        !spool.failed.dom().contains(name),
    ensures
        state_of(resolution_of(name, outcome).effect(spool), channel.finished(), name) == if succeeded(
            outcome,
        ) {
            MessageState::Delivered
        } else {
            MessageState::Failed
        },
{
}

/// A failed message stays failed, and a message that is not pending never
/// becomes pending again, whatever the dispatcher resolves.
pub proof fn lemma_failed_is_final(
    spool: SpoolState,
    before: DispatcherState,
    after: DispatcherState,
    name: Seq<char>,
    other: Seq<char>,
    outcome: Outcome,
)
    requires
        state_of(spool, before, name) == MessageState::Failed,
    ensures
        state_of(resolution_of(other, outcome).effect(spool), after, name) == MessageState::Failed,
{
}

} // verus!
