//! Shutdown: one cancellation for the whole daemon. Once it is given, no
//! new work is accepted; work that was accepted before is allowed to
//! finish, and the daemon may exit when none is left.

use vstd::prelude::*;
use crate::dispatch::Dispatcher;

verus! {

/// What the coordinator knows.
pub struct ShutdownState {
    /// Whether cancellation was given.
    pub cancelled: bool,
    /// The number of requests that were accepted and are not finished.
    pub in_progress: nat,
}

impl ShutdownState {
    /// A request can be accepted: cancellation was not given, and the
    /// count of requests has room.
    pub open spec fn accepts(self) -> bool {
        !self.cancelled && self.in_progress < usize::MAX
    }

    /// All accepted work is done after cancellation.
    pub open spec fn drained(self) -> bool {
        self.cancelled && self.in_progress == 0
    }
}

/// The shutdown coordinator of the intake side.
pub struct Coordinator {
    cancelled: bool,
    in_progress: usize,
}

impl View for Coordinator {
    type V = ShutdownState;

    closed spec fn view(&self) -> ShutdownState {
        ShutdownState { cancelled: self.cancelled, in_progress: self.in_progress as nat }
    }
}

impl Coordinator {
    /// A coordinator before cancellation, with no request in progress.
    pub fn new() -> (coordinator: Coordinator)
        ensures
            coordinator@ == (ShutdownState { cancelled: false, in_progress: 0 }),
    {
        Coordinator { cancelled: false, in_progress: 0 }
    }

    /// Gives the cancellation. Requests in progress stay in progress.
    pub fn cancel(&mut self)
        ensures
            final(self)@ == (ShutdownState { cancelled: true, ..old(self)@ }),
    {
        self.cancelled = true;
    }

    /// Accepts a request where the coordinator accepts any, and counts it;
    /// after cancellation every request is refused.
    pub fn enter(&mut self) -> (entered: bool)
        ensures
            entered == old(self)@.accepts(),
            entered ==> final(self)@ == (ShutdownState {
                in_progress: old(self)@.in_progress + 1,
                ..old(self)@
            }),
            !entered ==> final(self)@ == old(self)@,
    {
        if self.cancelled || self.in_progress == usize::MAX {
            false
        } else {
            self.in_progress = self.in_progress + 1;
            true
        }
    }

    /// Records that an accepted request is finished. With none in
    /// progress nothing changes.
    pub fn release(&mut self)
        ensures
            final(self)@ == (ShutdownState {
                in_progress: if old(self)@.in_progress > 0 {
                    (old(self)@.in_progress - 1) as nat
                } else {
                    0
                },
                ..old(self)@
            }),
    {
        if self.in_progress > 0 {
            self.in_progress = self.in_progress - 1;
        }
    }

    /// Whether cancellation was given.
    pub fn is_cancelled(&self) -> (yes: bool)
        ensures
            yes == self@.cancelled,
    {
        self.cancelled
    }

    /// Whether cancellation was given and all accepted work is done.
    pub fn drained(&self) -> (yes: bool)
        ensures
            yes == self@.drained(),
    {
        self.cancelled && self.in_progress == 0
    }
}

/// Passes the cancellation on to the intake side and to the dispatcher.
pub fn shut_down(coordinator: &mut Coordinator, dispatcher: &mut Dispatcher)
    ensures
        final(coordinator)@ == (ShutdownState { cancelled: true, ..old(coordinator)@ }),
        final(dispatcher)@ == old(dispatcher)@.halted(),
{
    coordinator.cancel();
    dispatcher.stop();
}

/// Whether the daemon may exit: the intake side is drained and the
/// dispatcher is at rest.
pub fn may_exit(coordinator: &Coordinator, dispatcher: &Dispatcher) -> (yes: bool)
    ensures
        yes == (coordinator@.drained() && dispatcher@.at_rest()),
{
    coordinator.drained() && dispatcher.at_rest()
}

} // verus!
