//! The spool: a durable queue with a file per message and two areas,
//! pending and failed.
//!
//! [`SpoolState`] is what the two directories hold. [`Spool`] keeps that
//! state as values and carries out the four operations of a spool on it;
//! a spool on disk performs the same operations on files.

use vstd::prelude::*;
use vstd::string::*;
use crate::area::{without, Area};
use crate::names::{fresh_mail_name, is_mail_name};

verus! {

/// What the two areas of a spool hold: the bytes under each file name.
pub struct SpoolState {
    pub pending: Map<Seq<char>, Seq<u8>>,
    pub failed: Map<Seq<char>, Seq<u8>>,
}

impl SpoolState {
    /// No name is in both areas: every message has one location.
    pub open spec fn placed_once(self) -> bool {
        forall|name: Seq<char>|
            !(#[trigger] self.pending.dom().contains(name) && self.failed.dom().contains(name))
    }

    /// Some pending-area file bears a minted name. Only then can a new
    /// message's name be taken.
    pub open spec fn holds_minted_name(self) -> bool {
        exists|taken: Seq<char>| is_mail_name(taken) && #[trigger] self.pending.dom().contains(taken)
    }

    /// The state after the file `name` was created in the pending area
    /// with the bytes `content`.
    pub open spec fn written(self, name: Seq<char>, content: Seq<u8>) -> SpoolState {
        SpoolState { pending: self.pending.insert(name, content), failed: self.failed }
    }

    /// The state after the pending-area file `name` was deleted.
    pub open spec fn delivered(self, name: Seq<char>) -> SpoolState {
        SpoolState { pending: self.pending.remove(name), failed: self.failed }
    }

    /// The state after the pending-area file `name` was moved to the failed
    /// area. Where the pending area has no such file, nothing moves.
    pub open spec fn quarantined(self, name: Seq<char>) -> SpoolState {
        if self.pending.dom().contains(name) {
            SpoolState {
                pending: self.pending.remove(name),
                failed: self.failed.insert(name, self.pending[name]),
            }
        } else {
            self
        }
    }
}

/// Why an operation on the spool did not take place.
#[derive(Clone, Copy, Debug, PartialEq, Eq, Structural)]
pub enum SpoolError {
    /// A pending-area file of the new message's name exists already.
    Collision,
    /// The pending area holds no file of the given name.
    Missing,
}

/// A spool held as values.
pub struct Spool {
    pending: Area,
    failed: Area,
}

impl View for Spool {
    type V = SpoolState;

    closed spec fn view(&self) -> SpoolState {
        SpoolState { pending: self.pending@, failed: self.failed@ }
    }
}

impl Spool {
    /// The invariant of the type: within an area no name occurs twice.
    pub closed spec fn wf(&self) -> bool {
        self.pending.wf() && self.failed.wf()
    }

    /// The names of the pending-area files in the order in which
    /// [`Spool::list_pending`] gives them.
    pub closed spec fn pending_listing(&self) -> Seq<Seq<char>> {
        self.pending.listing()
    }

    /// The listing of the pending area names each of its files once and
    /// nothing else.
    pub proof fn lemma_pending_listing(&self)
        requires
            self.wf(),
        ensures
            self.pending_listing().no_duplicates(),
            self.pending_listing().to_set() == self@.pending.dom(),
            self@.pending.dom().finite(),
    {
        self.pending.lemma_listing();
    }

    /// A spool with both areas empty.
    pub fn new() -> (spool: Spool)
        ensures
            spool.wf(),
            spool@.pending == Map::<Seq<char>, Seq<u8>>::empty(),
            spool@.failed == Map::<Seq<char>, Seq<u8>>::empty(),
            spool.pending_listing() == Seq::<Seq<char>>::empty(),
    {
        Spool { pending: Area::new(), failed: Area::new() }
    }

    /// Creates the pending-area file `name` with the bytes `content`. The
    /// creation is exclusive: where a pending-area file of that name exists
    /// the call fails with `Collision` and leaves the spool as it was.
    pub fn write_named(&mut self, name: String, content: Vec<u8>) -> (done: Result<(), SpoolError>)
        requires
            old(self).wf(),
        ensures
            final(self).wf(),
            done is Ok <==> !old(self)@.pending.dom().contains(name@),
            done is Ok ==> final(self)@ == old(self)@.written(name@, content@),
            done is Ok ==> final(self).pending_listing() == old(self).pending_listing().push(name@),
            done is Err ==> done == Err::<(), SpoolError>(SpoolError::Collision),
            done is Err ==> final(self)@ == old(self)@,
            done is Err ==> final(self).pending_listing() == old(self).pending_listing(),
    {
        if self.pending.create(name, content) {
            Ok(())
        } else {
            Err(SpoolError::Collision)
        }
    }

    /// Spools a new message: mints a fresh file name and creates the
    /// pending-area file of that name with the bytes `content`, exclusively.
    /// Returns the name. Whatever name was drawn, either the one new file
    /// holds exactly `content` and nothing else changed, or the name was
    /// taken by a pending file, the call fails with `Collision` and the
    /// spool is as it was. So the call succeeds wherever the pending area
    /// holds no file of a minted name: on an empty one, for instance.
    pub fn write(&mut self, content: Vec<u8>) -> (done: Result<String, SpoolError>)
        requires
            old(self).wf(),
        ensures
            final(self).wf(),
            match done {
                Ok(name) => {
                    &&& is_mail_name(name@)
                    &&& !old(self)@.pending.dom().contains(name@)
                    &&& final(self)@ == old(self)@.written(name@, content@)
                    &&& final(self).pending_listing() == old(self).pending_listing().push(name@)
                },
                Err(error) => {
                    &&& error == SpoolError::Collision
                    &&& old(self)@.holds_minted_name()
                    &&& final(self)@ == old(self)@
                    &&& final(self).pending_listing() == old(self).pending_listing()
                },
            },
    {
        let name = fresh_mail_name();
        let kept = name.clone();
        match self.write_named(name, content) {
            Ok(()) => Ok(kept),
            Err(error) => {
                assert(is_mail_name(kept@) && old(self)@.pending.dom().contains(kept@));
                Err(error)
            },
        }
    }

    /// Deletes the pending-area file `name`. Where no such file is there
    /// the call fails with `Missing`; the pending area lacks the name
    /// afterwards either way, and the failed area is never touched.
    pub fn mark_delivered(&mut self, name: &str) -> (done: Result<(), SpoolError>)
        requires
            old(self).wf(),
        ensures
            final(self).wf(),
            final(self)@ == old(self)@.delivered(name@),
            final(self).pending_listing() == without(old(self).pending_listing(), name@),
            done is Ok <==> old(self)@.pending.dom().contains(name@),
            done is Err ==> done == Err::<(), SpoolError>(SpoolError::Missing),
    {
        match self.pending.take(name) {
            Some(_) => Ok(()),
            None => Err(SpoolError::Missing),
        }
    }

    /// Moves the pending-area file `name` to the failed area, bytes
    /// unchanged; a failed-area file of that name is replaced. Where the
    /// pending area holds no such file the call fails with `Missing` and
    /// the spool is as it was.
    pub fn mark_failed(&mut self, name: &str) -> (done: Result<(), SpoolError>)
        requires
            old(self).wf(),
        ensures
            final(self).wf(),
            final(self)@ == old(self)@.quarantined(name@),
            final(self).pending_listing() == without(old(self).pending_listing(), name@),
            done is Ok <==> old(self)@.pending.dom().contains(name@),
            done is Err ==> done == Err::<(), SpoolError>(SpoolError::Missing),
    {
        match self.pending.take(name) {
            Some(content) => {
                let _ = self.failed.take(name);
                let created = self.failed.create(String::from_str(name), content);
                assert(created);
                assert(self.failed@ =~= old(self).failed@.insert(name@, content@));
                Ok(())
            },
            None => {
                assert(self.pending@ =~= old(self).pending@);
                Err(SpoolError::Missing)
            },
        }
    }

    /// The names of the pending-area files, each once.
    pub fn list_pending(&self) -> (names: Vec<String>)
        requires
            self.wf(),
        ensures
            names@.len() == self.pending_listing().len(),
            forall|i: int|
                0 <= i < names@.len() ==> (#[trigger] names@[i])@ == self.pending_listing()[i],
    {
        self.pending.names()
    }

    /// The names of the failed-area files, each once.
    pub fn list_failed(&self) -> (names: Vec<String>)
        requires
            self.wf(),
        ensures
            names@.len() == self@.failed.dom().len(),
            forall|i: int|
                0 <= i < names@.len() ==> self@.failed.dom().contains((#[trigger] names@[i])@),
            forall|i: int, j: int|
                0 <= i < j < names@.len() ==> (#[trigger] names@[i])@ != (#[trigger] names@[j])@,
    {
        proof {
            self.failed.lemma_listing();
        }
        let names = self.failed.names();
        proof {
            let listing = self.failed.listing();
            assert forall|i: int| 0 <= i < names@.len() implies self@.failed.dom().contains(
                (#[trigger] names@[i])@,
            ) by {
                assert(listing.to_set().contains(listing[i]));
            }
        }
        names
    }

    /// Whether the pending area holds a file called `name`.
    pub fn is_pending(&self, name: &str) -> (found: bool)
        requires
            self.wf(),
        ensures
            found == self@.pending.dom().contains(name@),
    {
        self.pending.contains(name)
    }

    /// Whether the failed area holds a file called `name`.
    pub fn is_failed(&self, name: &str) -> (found: bool)
        requires
            self.wf(),
        ensures
            found == self@.failed.dom().contains(name@),
    {
        self.failed.contains(name)
    }

    /// The bytes of the pending-area file `name`, if it is there.
    pub fn read_pending(&self, name: &str) -> (content: Option<Vec<u8>>)
        requires
            self.wf(),
        ensures
            match content {
                Some(bytes) => self@.pending.dom().contains(name@) && bytes@ == self@.pending[name@],
                None => !self@.pending.dom().contains(name@),
            },
    {
        self.pending.read(name)
    }

    /// The bytes of the failed-area file `name`, if it is there.
    pub fn read_failed(&self, name: &str) -> (content: Option<Vec<u8>>)
        requires
            self.wf(),
        ensures
            match content {
                Some(bytes) => self@.failed.dom().contains(name@) && bytes@ == self@.failed[name@],
                None => !self@.failed.dom().contains(name@),
            },
    {
        self.failed.read(name)
    }
}

} // verus!
