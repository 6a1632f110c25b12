//! Recovery: at startup every message that is still in the pending area
//! is announced to the dispatcher again, so that none is lost to a crash.

use vstd::prelude::*;
use vstd::string::*;
use crate::dispatch::{Dispatcher, DispatcherState};
use crate::names::{ignored, pending_path, pending_path_of, should_ignore_mail, texts};
use crate::spool::Spool;

verus! {

/// An entry of a directory listing.
#[derive(Clone, Debug, PartialEq, Eq)]
pub struct DirEntry {
    /// The entry's name within the directory.
    pub name: String,
    /// Whether the entry is a regular file.
    pub is_file: bool,
}

/// An entry of a directory listing, over texts.
pub struct Listed {
    pub name: Seq<char>,
    pub is_file: bool,
}

impl View for DirEntry {
    type V = Listed;

    open spec fn view(&self) -> Listed {
        Listed { name: self.name@, is_file: self.is_file }
    }
}

/// The listing `entries`, over texts.
pub open spec fn listed(entries: Seq<DirEntry>) -> Seq<Listed> {
    Seq::new(entries.len(), |i: int| entries[i]@)
}

/// The names of the regular files of a listing, in the listing's order.
/// Directories and other entries are passed over.
pub open spec fn regular_names(entries: Seq<Listed>) -> Seq<Seq<char>>
    decreases entries.len(),
{
    if entries.len() == 0 {
        Seq::<Seq<char>>::empty()
    } else if entries.last().is_file {
        regular_names(entries.drop_last()).push(entries.last().name)
    } else {
        regular_names(entries.drop_last())
    }
}

/// The channel after a recovery scan that found `listing`: every regular
/// file's name is pushed, in the listing's order, behind what waited. An
/// absent pending directory, `None`, leaves nothing to recover.
pub open spec fn recovered(channel: DispatcherState, listing: Option<Seq<Listed>>) -> DispatcherState {
    match listing {
        Some(entries) => DispatcherState { queue: channel.queue + regular_names(entries), ..channel },
        None => channel,
    }
}

/// The names of the regular files of `entries`, in the listing's order.
pub fn regular_files(entries: &Vec<DirEntry>) -> (names: Vec<String>)
    ensures
        texts(names@) == regular_names(listed(entries@)),
{
    let mut names: Vec<String> = Vec::new();
    let mut i: usize = 0;
    assert(listed(entries@).subrange(0, 0) =~= Seq::<Listed>::empty());
    assert(texts(names@) =~= Seq::<Seq<char>>::empty());
    while i < entries.len()
        invariant
            i <= entries@.len(),
            texts(names@) == regular_names(listed(entries@).subrange(0, i as int)),
        decreases entries@.len() - i,
    {
        let ghost upto = listed(entries@).subrange(0, i + 1);
        let ghost before = texts(names@);
        proof {
            assert(upto.drop_last() =~= listed(entries@).subrange(0, i as int));
            assert(upto.last() == entries@[i as int]@);
        }
        if entries[i].is_file {
            let name = entries[i].name.clone();
            names.push(name);
            assert(texts(names@) =~= before.push(name@));
        }
        i += 1;
    }
    assert(listed(entries@).subrange(0, i as int) =~= listed(entries@));
    names
}

/// Pushes `names` onto the channel, in their order.
pub fn notify_all(dispatcher: &mut Dispatcher, names: Vec<String>)
    ensures
        final(dispatcher)@ == (DispatcherState {
            queue: old(dispatcher)@.queue + texts(names@),
            ..old(dispatcher)@
        }),
{
    let mut i: usize = 0;
    assert(old(dispatcher)@.queue + texts(names@).subrange(0, 0) =~= old(dispatcher)@.queue);
    while i < names.len()
        invariant
            i <= names@.len(),
            dispatcher@ == (DispatcherState {
                queue: old(dispatcher)@.queue + texts(names@).subrange(0, i as int),
                ..old(dispatcher)@
            }),
        decreases names@.len() - i,
    {
        dispatcher.notify(names[i].clone());
        assert(dispatcher@.queue =~= old(dispatcher)@.queue + texts(names@).subrange(0, i + 1));
        i += 1;
    }
    assert(texts(names@).subrange(0, i as int) =~= texts(names@));
}

/// Announces the messages found by the startup scan of the pending area:
/// pushes the name of every regular file of `listing` onto the channel.
/// `None` stands for a pending directory that does not exist, which is no
/// error: nothing is pushed.
pub fn queue_pending_mails(dispatcher: &mut Dispatcher, listing: Option<&Vec<DirEntry>>)
    ensures
        final(dispatcher)@ == recovered(
            old(dispatcher)@,
            match listing {
                Some(entries) => Some(listed(entries@)),
                None => None,
            },
        ),
{
    match listing {
        Some(entries) => notify_all(dispatcher, regular_files(entries)),
        None => {},
    }
}

/// Announces every message of `spool`'s pending area: pushes each pending
/// name onto the channel, in the order of the area's listing.
pub fn recover(spool: &Spool, dispatcher: &mut Dispatcher)
    requires
        spool.wf(),
    ensures
        final(dispatcher)@ == (DispatcherState {
            queue: old(dispatcher)@.queue + spool.pending_listing(),
            ..old(dispatcher)@
        }),
{
    let names = spool.list_pending();
    assert(texts(names@) =~= spool.pending_listing());
    notify_all(dispatcher, names);
}

/// The names that a polling sweep over the pending area sends, for the
/// listing `entries`: the name of each regular file, in the listing's
/// order, but for those whose pending-area path is to be ignored.
pub open spec fn swept_names(entries: Seq<Listed>) -> Seq<Seq<char>>
    decreases entries.len(),
{
    if entries.len() == 0 {
        Seq::<Seq<char>>::empty()
    } else if entries.last().is_file && !ignored(pending_path_of(entries.last().name)) {
        swept_names(entries.drop_last()).push(entries.last().name)
    } else {
        swept_names(entries.drop_last())
    }
}

/// Chooses what a polling sweep over the pending area sends: the name of
/// every regular file of `entries` whose pending-area path
/// [`should_ignore_mail`] does not pass over.
pub fn send_mails(entries: &Vec<DirEntry>) -> (names: Vec<String>)
    ensures
        texts(names@) == swept_names(listed(entries@)),
{
    let mut names: Vec<String> = Vec::new();
    let mut i: usize = 0;
    assert(listed(entries@).subrange(0, 0) =~= Seq::<Listed>::empty());
    assert(texts(names@) =~= Seq::<Seq<char>>::empty());
    while i < entries.len()
        invariant
            i <= entries@.len(),
            texts(names@) == swept_names(listed(entries@).subrange(0, i as int)),
        decreases entries@.len() - i,
    {
        let ghost upto = listed(entries@).subrange(0, i + 1);
        let ghost before = texts(names@);
        proof {
            assert(upto.drop_last() =~= listed(entries@).subrange(0, i as int));
            assert(upto.last() == entries@[i as int]@);
        }
        if entries[i].is_file {
            let path = pending_path(entries[i].name.as_str());
            if !should_ignore_mail(path.as_str()) {
                let name = entries[i].name.clone();
                names.push(name);
                assert(texts(names@) =~= before.push(name@));
            }
        }
        i += 1;
    }
    assert(listed(entries@).subrange(0, i as int) =~= listed(entries@));
    names
}

/// A sweep passes over no regular file: a pending-area path never begins
/// with an underscore, so a sweep sends exactly what a recovery scan
/// announces.
pub proof fn lemma_sweep_sends_all(entries: Seq<Listed>)
    ensures
        swept_names(entries) == regular_names(entries),
    decreases entries.len(),
{
    if entries.len() > 0 {
        lemma_sweep_sends_all(entries.drop_last());
        reveal_strlit("pending/");
        assert(pending_path_of(entries.last().name)[0] == 'p');
    }
}

} // verus!
