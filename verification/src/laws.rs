//! What holds of the daemon as a whole, proved from the contracts of its
//! parts.

use vstd::prelude::*;
use crate::dispatch::{resolution_of, succeeded, DispatcherState, Outcome, Transition};
use crate::intake::{spooled_as, submission_handled, IntakeError, Response, BODY_SIZE_LIMIT};
use crate::ipc::{call_handled, QueueError};
use crate::recovery::{regular_names, Listed};
use crate::spool::SpoolState;

verus! {

/// An accepted submission puts exactly one new file into the pending area,
/// with the bytes of the payload; every other pending file and the whole
/// failed area are as they were, and the new name waits last on the
/// channel.
pub proof fn lemma_accepted_adds_one_file(
    spool_before: SpoolState,
    spool_after: SpoolState,
    channel_before: DispatcherState,
    channel_after: DispatcherState,
    body: Seq<u8>,
    reply: Result<Response, IntakeError>,
)
    requires
        submission_handled(spool_before, spool_after, channel_before, channel_after, body, reply),
        reply is Ok,
    ensures
        reply->Ok_0.status == 200,
        exists|name: Seq<char>|
            {
                &&& !spool_before.pending.dom().contains(name)
                &&& #[trigger] spool_after.pending.dom() == spool_before.pending.dom().insert(name)
                &&& spool_after.pending[name] == body
                &&& channel_after.queue == channel_before.queue.push(name)
            },
        forall|other: Seq<char>| #[trigger]
            spool_before.pending.dom().contains(other) ==> spool_after.pending[other]
                == spool_before.pending[other],
        spool_after.failed == spool_before.failed,
{
    let name = choose|name: Seq<char>|
        #![trigger spool_before.written(name, body)]
        spooled_as(spool_before, spool_after, name, body) && channel_after
            == channel_before.notified(name);
    assert(spool_after.pending.dom() == spool_before.pending.dom().insert(name));
}

/// A submission whose payload is over the size limit is refused, and
/// neither the spool nor the channel changes.
pub proof fn lemma_oversize_rejected(
    spool_before: SpoolState,
    spool_after: SpoolState,
    channel_before: DispatcherState,
    channel_after: DispatcherState,
    body: Seq<u8>,
    reply: Result<Response, IntakeError>,
)
    requires
        submission_handled(spool_before, spool_after, channel_before, channel_after, body, reply),
        body.len() > BODY_SIZE_LIMIT,
    ensures
        reply == Err::<Response, IntakeError>(IntakeError::TooLarge),
        spool_after == spool_before,
        channel_after == channel_before,
{
}

/// Two submissions accepted one after the other never share a name, and
/// the second leaves the first one's file as it is: creation is exclusive.
pub proof fn lemma_no_collision(
    first: SpoolState,
    second: SpoolState,
    third: SpoolState,
    name_a: Seq<char>,
    body_a: Seq<u8>,
    name_b: Seq<char>,
    body_b: Seq<u8>,
)
    requires
        spooled_as(first, second, name_a, body_a),
        spooled_as(second, third, name_b, body_b),
    ensures
        name_a != name_b,
        third.pending.dom().contains(name_a) && third.pending[name_a] == body_a,
        third.pending.dom().contains(name_b) && third.pending[name_b] == body_b,
{
}

/// After a successful dispatch the message's pending-area file is gone and
/// the failed area is as it was: no failed-area file was made for it.
pub proof fn lemma_delivered(state: SpoolState, name: Seq<char>, outcome: Outcome)
    requires
        succeeded(outcome),
    ensures
        !resolution_of(name, outcome).effect(state).pending.dom().contains(name),
        resolution_of(name, outcome).effect(state).failed == state.failed,
{
}

/// After a failed dispatch the message's file is in the failed area with
/// the bytes it had, and absent from the pending area.
pub proof fn lemma_quarantined(state: SpoolState, name: Seq<char>, outcome: Outcome)
    requires
        !succeeded(outcome),
        state.pending.dom().contains(name),
    ensures
        resolution_of(name, outcome).effect(state).failed.dom().contains(name),
        resolution_of(name, outcome).effect(state).failed[name] == state.pending[name],
        !resolution_of(name, outcome).effect(state).pending.dom().contains(name),
{
}

/// A dispatch touches one message only: every other file, in either area,
/// stays where it is with its bytes.
pub proof fn lemma_dispatch_frame(state: SpoolState, name: Seq<char>, outcome: Outcome, other: Seq<char>)
    requires
        other != name,
    ensures
        resolution_of(name, outcome).effect(state).pending.dom().contains(other)
            == state.pending.dom().contains(other),
        resolution_of(name, outcome).effect(state).failed.dom().contains(other)
            == state.failed.dom().contains(other),
        state.pending.dom().contains(other) ==> resolution_of(name, outcome).effect(state).pending[other]
            == state.pending[other],
        state.failed.dom().contains(other) ==> resolution_of(name, outcome).effect(state).failed[other]
            == state.failed[other],
{
}

/// Every message keeps one location: a transition never leaves a name in
/// both areas, and a new file does not either where its name is new to the
/// failed area too.
pub proof fn lemma_one_location(state: SpoolState, step: Transition, name: Seq<char>, body: Seq<u8>)
    requires
        state.placed_once(),
    ensures
        step.effect(state).placed_once(),
        !state.failed.dom().contains(name) ==> state.written(name, body).placed_once(),
{
    let after = step.effect(state);
    assert forall|n: Seq<char>|
        !(#[trigger] after.pending.dom().contains(n) && after.failed.dom().contains(n)) by {
        if after.pending.dom().contains(n) {
            assert(state.pending.dom().contains(n));
        }
    }
    if !state.failed.dom().contains(name) {
        let grown = state.written(name, body);
        assert forall|n: Seq<char>|
            !(#[trigger] grown.pending.dom().contains(n) && grown.failed.dom().contains(n)) by {
            if n != name && grown.pending.dom().contains(n) {
                assert(state.pending.dom().contains(n));
            }
        }
    }
}

/// The failed area only grows: whatever the daemon does, a new file or a
/// transition, every failed-area file stays in the failed area, and where
/// every message has one location it keeps its bytes. Nothing ever moves
/// back to the pending area: a pending file after a transition was pending
/// before it.
pub proof fn lemma_failed_stays(state: SpoolState, step: Transition, name: Seq<char>, body: Seq<u8>, kept: Seq<char>)
    requires
        state.failed.dom().contains(kept),
    ensures
        step.effect(state).failed.dom().contains(kept),
        state.placed_once() ==> step.effect(state).failed[kept] == state.failed[kept],
        state.placed_once() ==> !step.effect(state).pending.dom().contains(kept),
        step.effect(state).pending.dom().subset_of(state.pending.dom()),
        state.written(name, body).failed == state.failed,
{
    if state.placed_once() {
        assert(!(state.pending.dom().contains(kept) && state.failed.dom().contains(kept)));
    }
}

/// The scan for recovery finds every regular file of the listing, and
/// nothing else.
pub proof fn lemma_scan_complete(entries: Seq<Listed>, name: Seq<char>)
    ensures
        regular_names(entries).contains(name) <==> exists|i: int|
            0 <= i < entries.len() && (#[trigger] entries[i]).is_file && entries[i].name == name,
    decreases entries.len(),
{
    if entries.len() > 0 {
        let front = entries.drop_last();
        let last = entries.last();
        lemma_scan_complete(front, name);
        let found = regular_names(entries);
        let before = regular_names(front);
        if found.contains(name) {
            let k = choose|k: int| 0 <= k < found.len() && found[k] == name;
            if last.is_file && k == found.len() - 1 {
                assert(entries[entries.len() - 1].is_file && entries[entries.len() - 1].name == name);
            } else {
                assert(before[k] == name);
                let i = choose|i: int|
                    0 <= i < front.len() && (#[trigger] front[i]).is_file && front[i].name == name;
                assert(entries[i].is_file && entries[i].name == name);
            }
        }
        if exists|i: int|
            0 <= i < entries.len() && (#[trigger] entries[i]).is_file && entries[i].name == name {
            let i = choose|i: int|
                0 <= i < entries.len() && (#[trigger] entries[i]).is_file && entries[i].name == name;
            if i == entries.len() - 1 {
                assert(found[found.len() - 1] == name);
            } else {
                assert(front[i].is_file && front[i].name == name);
                let k = choose|k: int| 0 <= k < before.len() && before[k] == name;
                assert(found[k] == name);
            }
        }
    }
}

/// How often `name` is recovered from a listing: as often as the listing
/// holds a regular file of that name.
pub proof fn lemma_scan_counts(entries: Seq<Listed>, name: Seq<char>)
    ensures
        regular_names(entries).to_multiset().count(name) == entries.to_multiset().count(
            Listed { name, is_file: true },
        ),
    decreases entries.len(),
{
    broadcast use vstd::seq_lib::group_to_multiset_ensures;

    if entries.len() == 0 {
        assert(regular_names(entries) =~= Seq::<Seq<char>>::empty());
        assert(entries =~= Seq::<Listed>::empty());
    } else {
        let front = entries.drop_last();
        let last = entries.last();
        lemma_scan_counts(front, name);
        assert(entries =~= front.push(last));
        assert(entries.to_multiset() =~= front.to_multiset().insert(last));
        if last.is_file {
            assert(regular_names(entries).to_multiset() =~= regular_names(front).to_multiset().insert(
                last.name,
            ));
            if last.name == name {
                assert(last == Listed { name, is_file: true });
            }
        }
    }
}

/// Recovery does not depend on the order in which the pending area is
/// listed: two listings of the same entries recover the same names, each
/// as often.
pub proof fn lemma_scan_order(first: Seq<Listed>, second: Seq<Listed>)
    requires
        first.to_multiset() == second.to_multiset(),
    ensures
        regular_names(first).to_multiset() == regular_names(second).to_multiset(),
{
    assert forall|name: Seq<char>|
        regular_names(first).to_multiset().count(name) == regular_names(second).to_multiset().count(
            name,
        ) by {
        lemma_scan_counts(first, name);
        lemma_scan_counts(second, name);
    }
    assert(regular_names(first).to_multiset() =~= regular_names(second).to_multiset());
}

/// The spool after the dispatcher worked through the names `names` in
/// their order, the attempt on each ending as `outcomes` says at the same
/// place.
pub open spec fn drained(state: SpoolState, names: Seq<Seq<char>>, outcomes: Seq<Outcome>) -> SpoolState
    decreases names.len(),
{
    if names.len() == 0 || outcomes.len() != names.len() {
        state
    } else {
        resolution_of(names.last(), outcomes.last()).effect(
            drained(state, names.drop_last(), outcomes.drop_last()),
        )
    }
}

/// Working through a queue touches the queued messages only: a file whose
/// name is not queued stays where it is with its bytes, and no file ever
/// enters the pending area.
pub proof fn lemma_drained_frame(
    state: SpoolState,
    names: Seq<Seq<char>>,
    outcomes: Seq<Outcome>,
    other: Seq<char>,
)
    requires
        outcomes.len() == names.len(),
    ensures
        drained(state, names, outcomes).pending.dom().contains(other) ==> state.pending.dom().contains(
            other,
        ) && drained(state, names, outcomes).pending[other] == state.pending[other],
        !names.contains(other) ==> drained(state, names, outcomes).pending.dom().contains(other)
            == state.pending.dom().contains(other),
        !names.contains(other) ==> drained(state, names, outcomes).failed.dom().contains(other)
            == state.failed.dom().contains(other),
        !names.contains(other) && state.failed.dom().contains(other) ==> drained(
            state,
            names,
            outcomes,
        ).failed[other] == state.failed[other],
    decreases names.len(),
{
    if names.len() > 0 {
        let front = names.drop_last();
        lemma_drained_frame(state, front, outcomes.drop_last(), other);
        if !names.contains(other) {
            assert(names[names.len() - 1] != other);
            assert forall|k: int| 0 <= k < front.len() implies front[k] != other by {
                assert(names[k] == front[k]);
            }
        }
    }
}

/// Every queued message is dispatched: once the dispatcher has worked
/// through a queue without repeats, none of its names is in the pending
/// area. A message that was pending and whose attempt succeeded is in the
/// failed area only if a file of its name was there before; one whose
/// attempt failed is in the failed area with the bytes it had.
pub proof fn lemma_drained_fate(
    state: SpoolState,
    names: Seq<Seq<char>>,
    outcomes: Seq<Outcome>,
    i: int,
)
    requires
        outcomes.len() == names.len(),
        names.no_duplicates(),
        0 <= i < names.len(),
    ensures
        !drained(state, names, outcomes).pending.dom().contains(names[i]),
        state.pending.dom().contains(names[i]) && succeeded(outcomes[i]) ==> drained(
            state,
            names,
            outcomes,
        ).failed.dom().contains(names[i]) == state.failed.dom().contains(names[i]),
        state.pending.dom().contains(names[i]) && !succeeded(outcomes[i]) ==> drained(
            state,
            names,
            outcomes,
        ).failed.dom().contains(names[i]) && drained(state, names, outcomes).failed[names[i]]
            == state.pending[names[i]],
    decreases names.len(),
{
    let front = names.drop_last();
    let earlier = outcomes.drop_last();
    let last = names.len() - 1;
    let before = drained(state, front, earlier);
    if i < last {
        assert(front[i] == names[i]);
        assert(earlier[i] == outcomes[i]);
        lemma_drained_fate(state, front, earlier, i);
        assert(names[i] != names[last]);
    } else {
        assert forall|k: int| 0 <= k < front.len() implies front[k] != names[last] by {
            assert(front[k] == names[k]);
        }
        lemma_drained_frame(state, front, earlier, names[last]);
    }
}

/// Recovery is complete: where the queue lists the pending area, each
/// file once, in whatever order, the pending area is empty once the
/// dispatcher has worked through it, however the attempts end.
pub proof fn lemma_restart_drains(state: SpoolState, names: Seq<Seq<char>>, outcomes: Seq<Outcome>)
    requires
        outcomes.len() == names.len(),
        names.no_duplicates(),
        names.to_set() == state.pending.dom(),
    ensures
        drained(state, names, outcomes).pending == Map::<Seq<char>, Seq<u8>>::empty(),
{
    let after = drained(state, names, outcomes);
    assert forall|name: Seq<char>| !after.pending.dom().contains(name) by {
        lemma_drained_frame(state, names, outcomes, name);
        if after.pending.dom().contains(name) {
            assert(names.to_set().contains(name));
            let i = choose|i: int| 0 <= i < names.len() && names[i] == name;
            lemma_drained_fate(state, names, outcomes, i);
        }
    }
    assert(after.pending =~= Map::<Seq<char>, Seq<u8>>::empty());
}

/// Acceptance is owed wherever no draw can collide: a submission whose
/// payload is within the size limit is accepted if the pending area holds
/// no file of a minted name, as an empty one does. Then status 200 is
/// given, and the one new file holds the payload.
pub proof fn lemma_accepted_where_free(
    spool_before: SpoolState,
    spool_after: SpoolState,
    channel_before: DispatcherState,
    channel_after: DispatcherState,
    body: Seq<u8>,
    reply: Result<Response, IntakeError>,
)
    requires
        submission_handled(spool_before, spool_after, channel_before, channel_after, body, reply),
        body.len() <= BODY_SIZE_LIMIT,
        !spool_before.holds_minted_name(),
    ensures
        reply is Ok,
        reply->Ok_0.is_queued(),
        exists|name: Seq<char>|
            #![trigger spool_before.written(name, body)]
            spooled_as(spool_before, spool_after, name, body),
{
}

/// A call of the interprocess endpoint succeeds wherever the pending area
/// holds no file of a minted name.
pub proof fn lemma_call_succeeds_where_free(
    spool_before: SpoolState,
    spool_after: SpoolState,
    channel_before: DispatcherState,
    channel_after: DispatcherState,
    content: Seq<u8>,
    reply: Result<(), QueueError>,
)
    requires
        call_handled(spool_before, spool_after, channel_before, channel_after, content, reply),
        !spool_before.holds_minted_name(),
    ensures
        reply is Ok,
{
}

/// An empty pending area holds no file of a minted name.
pub proof fn lemma_empty_is_free(state: SpoolState)
    requires
        state.pending == Map::<Seq<char>, Seq<u8>>::empty(),
    ensures
        !state.holds_minted_name(),
{
}

/// The channel after the dispatcher pulled and resolved `count` names, one
/// after the other.
pub open spec fn after_attempts(channel: DispatcherState, count: nat) -> DispatcherState
    decreases count,
{
    if count == 0 {
        channel
    } else {
        after_attempts(channel, (count - 1) as nat).started().finished()
    }
}

/// The dispatcher works through the channel in order, one name at a time.
/// From a channel with nothing in flight and no shutdown requested, after
/// `count` attempts the first `count` names are gone from the queue and
/// nothing is in flight. While names are left, the next attempt can start
/// and is the one on the name at place `count`; a further one cannot start
/// until that one is resolved. Once all are through, the dispatcher is at
/// rest and no attempt can start. So every name is dispatched exactly
/// once, in the order of the channel.
pub proof fn lemma_dispatch_in_order(channel: DispatcherState, count: nat)
    requires
        !channel.stopped,
        channel.in_flight is None,
        count <= channel.queue.len(),
    ensures
        after_attempts(channel, count).queue == channel.queue.skip(count as int),
        after_attempts(channel, count).in_flight is None,
        !after_attempts(channel, count).stopped,
        count < channel.queue.len() ==> {
            &&& after_attempts(channel, count).can_start()
            &&& after_attempts(channel, count).started().in_flight == Some(channel.queue[count as int])
            &&& !after_attempts(channel, count).started().can_start()
        },
        count == channel.queue.len() ==> {
            &&& after_attempts(channel, count).at_rest()
            &&& !after_attempts(channel, count).can_start()
            &&& after_attempts(channel, count).queue.len() == 0
        },
    decreases count,
{
    if count > 0 {
        let earlier = (count - 1) as nat;
        lemma_dispatch_in_order(channel, earlier);
        assert(channel.queue.skip(earlier as int).drop_first() =~= channel.queue.skip(count as int));
    } else {
        assert(channel.queue.skip(0) =~= channel.queue);
    }
}

/// A name announced while others wait is dispatched after them: pushing a
/// name onto the channel changes neither the names before it nor their
/// order.
pub proof fn lemma_notified_waits_its_turn(channel: DispatcherState, name: Seq<char>, place: int)
    requires
        0 <= place < channel.queue.len(),
    ensures
        channel.notified(name).queue[place] == channel.queue[place],
        channel.notified(name).queue[channel.queue.len() as int] == name,
        channel.notified(name).queue.len() == channel.queue.len() + 1,
{
}

} // verus!
