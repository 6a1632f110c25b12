//! Intake: what a transport does with a submission. The payload is
//! gathered under a size limit, spooled, and only then announced to the
//! dispatcher and acknowledged to the caller.

use vstd::prelude::*;
use vstd::string::*;
use crate::dispatch::{Dispatcher, DispatcherState};
use crate::names::is_mail_name;
use crate::spool::{Spool, SpoolError, SpoolState};

verus! {

/// The largest payload that is accepted, in bytes: 100 KiB.
pub const BODY_SIZE_LIMIT: usize = 102400;

/// Where a request leads.
#[derive(Clone, Copy, Debug, PartialEq, Eq, Structural)]
pub enum Route {
    /// The submission route.
    Queue,
    /// Anything else.
    NotFound,
}

/// The submission route is `POST /queue`; every other method or path
/// leads nowhere.
pub open spec fn route_of(method: Seq<char>, path: Seq<char>) -> Route {
    if method == "POST"@ && path == "/queue"@ {
        Route::Queue
    } else {
        Route::NotFound
    }
}

/// Whether two texts are the same.
fn same_text(a: &str, b: &str) -> (same: bool)
    ensures
        same == (a@ == b@),
{
    String::from_str(a) == String::from_str(b)
}

/// Routes a request by its method and the path of its target.
pub fn route(method: &str, path: &str) -> (route: Route)
    ensures
        route == route_of(method@, path@),
{
    if same_text(method, "POST") && same_text(path, "/queue") {
        Route::Queue
    } else {
        Route::NotFound
    }
}

/// Where the local network endpoint gets its socket from.
#[derive(Clone, Debug, PartialEq, Eq)]
pub enum ListenerPlan {
    /// Use the socket that was handed to the process, bound already.
    Inherited,
    /// Bind a socket at `path`, after removing a stale file there.
    Bind { path: String },
}

/// Chooses the socket of the local network endpoint: the inherited one
/// where the process was given one, else one bound at `outbox.sock`.
pub fn listener_plan(inherited: bool) -> (plan: ListenerPlan)
    ensures
        inherited ==> plan == ListenerPlan::Inherited,
        !inherited ==> plan is Bind && plan->path@ == "outbox.sock"@,
{
    if inherited {
        ListenerPlan::Inherited
    } else {
        ListenerPlan::Bind { path: String::from_str("outbox.sock") }
    }
}

/// A reply to a caller: a status code and a plain body.
#[derive(Clone, Debug, PartialEq, Eq)]
pub struct Response {
    pub status: u16,
    pub body: String,
}

impl Response {
    /// Whether this is the acknowledgment of a spooled message: status 200
    /// with the body `queued`.
    pub open spec fn is_queued(&self) -> bool {
        self.status == 200 && self.body@ == "queued"@
    }

    /// Whether this is the reply to a request that leads nowhere: status
    /// 404 with the body `not found`.
    pub open spec fn is_not_found(&self) -> bool {
        self.status == 404 && self.body@ == "not found"@
    }
}

/// The acknowledgment of a spooled message.
pub fn queued() -> (response: Response)
    ensures
        response.is_queued(),
{
    Response { status: 200, body: String::from_str("queued") }
}

/// The reply to a request that leads nowhere.
pub fn not_found() -> (response: Response)
    ensures
        response.is_not_found(),
{
    Response { status: 404, body: String::from_str("not found") }
}

/// Why a submission was not accepted.
#[derive(Clone, Copy, Debug, PartialEq, Eq)]
pub enum IntakeError {
    /// The payload is larger than the limit.
    TooLarge,
    /// The spool refused the new file.
    Spool(SpoolError),
}

/// The bytes of each chunk.
pub open spec fn chunk_bytes(chunks: Seq<Vec<u8>>) -> Seq<Seq<u8>> {
    Seq::new(chunks.len(), |i: int| chunks[i]@)
}

/// The chunks one after the other.
pub open spec fn joined(chunks: Seq<Seq<u8>>) -> Seq<u8>
    decreases chunks.len(),
{
    if chunks.len() == 0 {
        Seq::<u8>::empty()
    } else {
        joined(chunks.drop_last()) + chunks.last()
    }
}

/// A payload as it arrives, chunk by chunk, under a size limit.
pub struct BodyBuffer {
    limit: usize,
    data: Vec<u8>,
}

impl BodyBuffer {
    /// The bytes gathered so far.
    pub closed spec fn bytes(&self) -> Seq<u8> {
        self.data@
    }

    /// The largest payload that the buffer takes.
    pub closed spec fn limit(&self) -> nat {
        self.limit as nat
    }

    /// The invariant of the type: the buffer is never over its limit.
    pub closed spec fn wf(&self) -> bool {
        self.data@.len() <= self.limit
    }

    /// An empty buffer that takes up to `limit` bytes.
    pub fn new(limit: usize) -> (buffer: BodyBuffer)
        ensures
            buffer.wf(),
            buffer.limit() == limit,
            buffer.bytes() == Seq::<u8>::empty(),
    {
        BodyBuffer { limit, data: Vec::new() }
    }

    /// Appends `chunk` where the payload stays within the limit; else
    /// refuses it with `TooLarge` and keeps the buffer as it was.
    pub fn push(&mut self, chunk: &Vec<u8>) -> (done: Result<(), IntakeError>)
        requires
            old(self).wf(),
        ensures
            final(self).wf(),
            final(self).limit() == old(self).limit(),
            done is Ok <==> old(self).bytes().len() + chunk@.len() <= old(self).limit(),
            done is Ok ==> final(self).bytes() == old(self).bytes() + chunk@,
            done is Err ==> done == Err::<(), IntakeError>(IntakeError::TooLarge),
            done is Err ==> final(self).bytes() == old(self).bytes(),
    {
        let room: usize = self.limit - self.data.len();
        if chunk.len() > room {
            return Err(IntakeError::TooLarge);
        }
        let mut i: usize = 0;
        while i < chunk.len()
            invariant
                i <= chunk@.len(),
                self.limit == old(self).limit,
                old(self).data@.len() + chunk@.len() <= self.limit,
                self.data@ == old(self).data@ + chunk@.subrange(0, i as int),
            decreases chunk@.len() - i,
        {
            self.data.push(chunk[i]);
            assert(self.data@ =~= old(self).data@ + chunk@.subrange(0, i + 1));
            i += 1;
        }
        assert(chunk@.subrange(0, i as int) =~= chunk@);
        Ok(())
    }

    /// The payload.
    pub fn into_body(self) -> (body: Vec<u8>)
        ensures
            body@ == self.bytes(),
    {
        self.data
    }
}

/// Gathers a payload from its chunks: the chunks one after the other where
/// they hold no more than `limit` bytes together, else `TooLarge`.
pub fn collect_body(chunks: &Vec<Vec<u8>>, limit: usize) -> (body: Result<Vec<u8>, IntakeError>)
    ensures
        body is Ok <==> joined(chunk_bytes(chunks@)).len() <= limit,
        body is Ok ==> body->Ok_0@ == joined(chunk_bytes(chunks@)),
        body is Err ==> body == Err::<Vec<u8>, IntakeError>(IntakeError::TooLarge),
{
    let mut buffer = BodyBuffer::new(limit);
    let mut i: usize = 0;
    while i < chunks.len()
        invariant
            i <= chunks@.len(),
            buffer.wf(),
            buffer.limit() == limit,
            buffer.bytes() == joined(chunk_bytes(chunks@).subrange(0, i as int)),
        decreases chunks@.len() - i,
    {
        let ghost upto = chunk_bytes(chunks@).subrange(0, i + 1);
        proof {
            assert(upto.drop_last() =~= chunk_bytes(chunks@).subrange(0, i as int));
            assert(upto.last() == chunks@[i as int]@);
        }
        match buffer.push(&chunks[i]) {
            Ok(()) => {},
            Err(error) => {
                proof {
                    lemma_joined_grows(chunk_bytes(chunks@), i + 1);
                }
                return Err(IntakeError::TooLarge);
            },
        }
        i += 1;
    }
    assert(chunk_bytes(chunks@).subrange(0, i as int) =~= chunk_bytes(chunks@));
    Ok(buffer.into_body())
}

/// A payload is at least as long as what its first `n` chunks hold.
pub proof fn lemma_joined_grows(chunks: Seq<Seq<u8>>, n: int)
    requires
        0 <= n <= chunks.len(),
    ensures
        joined(chunks.subrange(0, n)).len() <= joined(chunks).len(),
    decreases chunks.len() - n,
{
    if n == chunks.len() {
        assert(chunks.subrange(0, n) =~= chunks);
    } else {
        lemma_joined_grows(chunks, n + 1);
        let longer = chunks.subrange(0, n + 1);
        assert(longer.drop_last() =~= chunks.subrange(0, n));
    }
}

/// The spool went from `before` to `after` by taking one new message: a
/// pending-area file under the minted name `name`, which was free, with
/// exactly the bytes `body`; nothing else changed.
pub open spec fn spooled_as(before: SpoolState, after: SpoolState, name: Seq<char>, body: Seq<u8>) -> bool {
    &&& is_mail_name(name)
    &&& !before.pending.dom().contains(name)
    &&& after == before.written(name, body)
}

/// What holds after a submission of the payload `body` was handled with
/// the result `reply`.
///
/// A payload over the limit is refused with `TooLarge`. One within the
/// limit is refused only where the name drawn for it was taken, so only
/// where the pending area held a file of a minted name. Any refusal leaves
/// the spool and the channel as they were. An acceptance is the
/// acknowledgment of [`queued`], given after the one new file was spooled
/// and its name pushed onto the channel.
pub open spec fn submission_handled(
    spool_before: SpoolState,
    spool_after: SpoolState,
    channel_before: DispatcherState,
    channel_after: DispatcherState,
    body: Seq<u8>,
    reply: Result<Response, IntakeError>,
) -> bool {
    match reply {
        Ok(response) => {
            &&& body.len() <= BODY_SIZE_LIMIT
            &&& response.is_queued()
            &&& exists|name: Seq<char>|
                #![trigger spool_before.written(name, body)]
                spooled_as(spool_before, spool_after, name, body) && channel_after
                    == channel_before.notified(name)
        },
        Err(error) => {
            &&& spool_after == spool_before
            &&& channel_after == channel_before
            &&& error == if body.len() > BODY_SIZE_LIMIT {
                IntakeError::TooLarge
            } else {
                IntakeError::Spool(SpoolError::Collision)
            }
            &&& body.len() <= BODY_SIZE_LIMIT ==> spool_before.holds_minted_name()
        },
    }
}

/// Spools a submission: gathers the payload from `chunks` and, where it is
/// within [`BODY_SIZE_LIMIT`], writes it to the pending area under a fresh
/// name, which is returned. A payload over the limit is refused with
/// `TooLarge` before anything is written. One within the limit is refused,
/// with `Collision`, only where the name drawn for it was taken by a
/// pending file.
pub fn write_pending_mail(spool: &mut Spool, chunks: &Vec<Vec<u8>>) -> (written: Result<
    String,
    IntakeError,
>)
    requires
        old(spool).wf(),
    ensures
        final(spool).wf(),
        match written {
            Ok(name) => {
                &&& joined(chunk_bytes(chunks@)).len() <= BODY_SIZE_LIMIT
                &&& spooled_as(old(spool)@, final(spool)@, name@, joined(chunk_bytes(chunks@)))
                &&& final(spool).pending_listing() == old(spool).pending_listing().push(name@)
            },
            Err(error) => {
                &&& final(spool)@ == old(spool)@
                &&& final(spool).pending_listing() == old(spool).pending_listing()
                &&& error == if joined(chunk_bytes(chunks@)).len() > BODY_SIZE_LIMIT {
                    IntakeError::TooLarge
                } else {
                    IntakeError::Spool(SpoolError::Collision)
                }
                &&& joined(chunk_bytes(chunks@)).len() <= BODY_SIZE_LIMIT ==> old(
                    spool,
                )@.holds_minted_name()
            },
        },
{
    match collect_body(chunks, BODY_SIZE_LIMIT) {
        Ok(body) => match spool.write(body) {
            Ok(name) => Ok(name),
            Err(error) => Err(IntakeError::Spool(error)),
        },
        Err(error) => Err(error),
    }
}

/// Handles a submission: spools the payload, then pushes the new name onto
/// the channel, then acknowledges. The acknowledgment is given only once
/// the message is in the spool and announced.
pub fn accept_mail(spool: &mut Spool, dispatcher: &mut Dispatcher, chunks: &Vec<Vec<u8>>) -> (reply:
    Result<Response, IntakeError>)
    requires
        old(spool).wf(),
    ensures
        final(spool).wf(),
        submission_handled(
            old(spool)@,
            final(spool)@,
            old(dispatcher)@,
            final(dispatcher)@,
            joined(chunk_bytes(chunks@)),
            reply,
        ),
{
    match write_pending_mail(spool, chunks) {
        Ok(name) => {
            let ghost minted = name@;
            dispatcher.notify(name);
            let response = queued();
            assert(spooled_as(old(spool)@, spool@, minted, joined(chunk_bytes(chunks@))));
            assert(old(spool)@.written(minted, joined(chunk_bytes(chunks@))) == spool@);
            Ok(response)
        },
        Err(error) => Err(error),
    }
}

/// Serves one request. `POST /queue` is a submission and handled as
/// [`accept_mail`] does; any other method or path gets the reply of
/// [`not_found`] and changes nothing.
pub fn serve(
    spool: &mut Spool,
    dispatcher: &mut Dispatcher,
    method: &str,
    path: &str,
    chunks: &Vec<Vec<u8>>,
) -> (reply: Result<Response, IntakeError>)
    requires
        old(spool).wf(),
    ensures
        final(spool).wf(),
        match route_of(method@, path@) {
            Route::Queue => submission_handled(
                old(spool)@,
                final(spool)@,
                old(dispatcher)@,
                final(dispatcher)@,
                joined(chunk_bytes(chunks@)),
                reply,
            ),
            Route::NotFound => {
                &&& reply is Ok
                &&& reply->Ok_0.is_not_found()
                &&& final(spool)@ == old(spool)@
                &&& final(dispatcher)@ == old(dispatcher)@
            },
        },
{
    match route(method, path) {
        Route::Queue => accept_mail(spool, dispatcher, chunks),
        Route::NotFound => Ok(not_found()),
    }
}

} // verus!
