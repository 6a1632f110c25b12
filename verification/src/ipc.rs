//! The interprocess-call endpoint: one method, which takes a message's
//! bytes, spools them, announces them and reports to the caller.

use vstd::prelude::*;
use vstd::string::*;
use crate::dispatch::{Dispatcher, DispatcherState};
use crate::intake::spooled_as;
use crate::spool::{Spool, SpoolError, SpoolState};

verus! {

/// The bus on which the endpoint is offered.
#[derive(Clone, Copy, Debug, PartialEq, Eq, Structural)]
pub enum BusScope {
    System,
    Session,
}

/// The scope that a configured value selects: `system` or `session` by
/// name, the system bus where nothing is configured, and none for any
/// other text.
pub open spec fn bus_scope_of(configured: Option<Seq<char>>) -> Option<BusScope> {
    match configured {
        None => Some(BusScope::System),
        Some(text) => if text == "system"@ {
            Some(BusScope::System)
        } else if text == "session"@ {
            Some(BusScope::Session)
        } else {
            None
        },
    }
}

/// Selects the bus from the configured value, if it names one.
pub fn bus_scope(configured: Option<&str>) -> (scope: Option<BusScope>)
    ensures
        scope == bus_scope_of(
            match configured {
                Some(text) => Some(text@),
                None => None,
            },
        ),
{
    match configured {
        None => Some(BusScope::System),
        Some(text) => {
            let given = String::from_str(text);
            if given == String::from_str("system") {
                Some(BusScope::System)
            } else if given == String::from_str("session") {
                Some(BusScope::Session)
            } else {
                None
            }
        },
    }
}

/// Why a call of the endpoint failed.
#[derive(Clone, Debug, PartialEq, Eq)]
pub enum QueueError {
    /// The bus reported an error, given as text.
    Bus(String),
    /// Reading or spooling the message failed, described as text.
    Io(String),
}

/// The description of a spool error.
pub open spec fn description_of(error: SpoolError) -> Seq<char> {
    match error {
        SpoolError::Collision => "spool file exists"@,
        SpoolError::Missing => "spool file is missing"@,
    }
}

/// Describes a spool error as text.
pub fn describe(error: SpoolError) -> (text: String)
    ensures
        text@ == description_of(error),
{
    match error {
        SpoolError::Collision => String::from_str("spool file exists"),
        SpoolError::Missing => String::from_str("spool file is missing"),
    }
}

/// What holds after a call with the message `content` ended with `reply`.
/// A success was given after the one new file was spooled, with exactly
/// those bytes, and its name pushed onto the channel. A failure is an I/O
/// failure, described, and leaves the spool and the channel as they were;
/// it comes only where the name drawn for the message was taken, so only
/// where the pending area held a file of a minted name.
pub open spec fn call_handled(
    spool_before: SpoolState,
    spool_after: SpoolState,
    channel_before: DispatcherState,
    channel_after: DispatcherState,
    content: Seq<u8>,
    reply: Result<(), QueueError>,
) -> bool {
    match reply {
        Ok(()) => exists|name: Seq<char>|
            #![trigger spool_before.written(name, content)]
            spooled_as(spool_before, spool_after, name, content) && channel_after
                == channel_before.notified(name),
        Err(error) => {
            &&& spool_after == spool_before
            &&& channel_after == channel_before
            &&& error is Io
            &&& error->Io_0@ == description_of(SpoolError::Collision)
            &&& spool_before.holds_minted_name()
        },
    }
}

/// The endpoint's method: spools the bytes `content`, read in full from
/// the caller's handle, then pushes the new name onto the channel, then
/// reports success.
pub fn queue(spool: &mut Spool, dispatcher: &mut Dispatcher, content: Vec<u8>) -> (reply: Result<
    (),
    QueueError,
>)
    requires
        old(spool).wf(),
    ensures
        final(spool).wf(),
        call_handled(
            old(spool)@,
            final(spool)@,
            old(dispatcher)@,
            final(dispatcher)@,
            content@,
            reply,
        ),
{
    match spool.write(content) {
        Ok(name) => {
            let ghost minted = name@;
            dispatcher.notify(name);
            assert(old(spool)@.written(minted, content@) == spool@);
            Ok(())
        },
        Err(error) => Err(QueueError::Io(describe(error))),
    }
}

} // verus!
