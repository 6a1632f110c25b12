//! One directory of the spool, held as values: a file per message, found
//! by its name.

use vstd::prelude::*;
use vstd::string::*;

verus! {

/// A spool file: its name within its directory and its bytes.
pub struct SpoolFile {
    pub name: String,
    pub content: Vec<u8>,
}

/// Whether some file in `files` is called `name`.
pub open spec fn holds(files: Seq<SpoolFile>, name: Seq<char>) -> bool {
    exists|i: int| 0 <= i < files.len() && #[trigger] files[i].name@ == name
}

/// The place in `files` of a file called `name`.
pub open spec fn place_of(files: Seq<SpoolFile>, name: Seq<char>) -> int {
    choose|i: int| 0 <= i < files.len() && #[trigger] files[i].name@ == name
}

/// No two files in `files` share a name.
pub open spec fn names_distinct(files: Seq<SpoolFile>) -> bool {
    forall|i: int, j: int|
        0 <= i < j < files.len() ==> #[trigger] files[i].name@ != #[trigger] files[j].name@
}

/// What a directory with the files `files` holds: the bytes under each name.
pub open spec fn contents(files: Seq<SpoolFile>) -> Map<Seq<char>, Seq<u8>> {
    Map::new(|name: Seq<char>| holds(files, name), |name: Seq<char>| files[place_of(files, name)].content@)
}

/// The sequence `names` without each occurrence of `gone`, the rest in
/// their order.
pub open spec fn without(names: Seq<Seq<char>>, gone: Seq<char>) -> Seq<Seq<char>> {
    names.filter(|n: Seq<char>| n != gone)
}

/// The names of `files`, in their order.
pub open spec fn names_of(files: Seq<SpoolFile>) -> Seq<Seq<char>> {
    Seq::new(files.len(), |i: int| files[i].name@)
}

/// In a directory without repeated names, the file at place `i` is the one
/// its name leads to.
pub proof fn lemma_place(files: Seq<SpoolFile>, i: int)
    requires
        names_distinct(files),
        0 <= i < files.len(),
    ensures
        holds(files, files[i].name@),
        place_of(files, files[i].name@) == i,
        contents(files).dom().contains(files[i].name@),
        contents(files)[files[i].name@] == files[i].content@,
{
    let name = files[i].name@;
    let k = place_of(files, name);
    assert(0 <= k < files.len() && files[k].name@ == name);
    if k < i {
        assert(files[k].name@ != files[i].name@);
    } else if i < k {
        assert(files[i].name@ != files[k].name@);
    }
}

/// Adding a file under a name that the directory lacks adds that one
/// entry to what it holds.
pub proof fn lemma_push(files: Seq<SpoolFile>, file: SpoolFile)
    requires
        names_distinct(files),
        !holds(files, file.name@),
    ensures
        names_distinct(files.push(file)),
        contents(files.push(file)) == contents(files).insert(file.name@, file.content@),
{
    let after = files.push(file);
    assert forall|i: int, j: int| 0 <= i < j < after.len() implies #[trigger] after[i].name@
        != #[trigger] after[j].name@ by {
        if j == files.len() {
            assert(after[i] == files[i]);
            assert(files[i].name@ != file.name@);
        } else {
            assert(after[i] == files[i] && after[j] == files[j]);
        }
    }
    let target = contents(files).insert(file.name@, file.content@);
    assert forall|name: Seq<char>| contents(after).dom().contains(name) <==> target.dom().contains(
        name,
    ) by {
        if holds(after, name) {
            let k = place_of(after, name);
            if k < files.len() {
                assert(files[k].name@ == name);
            }
        }
        if holds(files, name) {
            let k = place_of(files, name);
            assert(after[k].name@ == name);
        }
        if name == file.name@ {
            assert(after[files.len() as int].name@ == name);
        }
    }
    assert forall|name: Seq<char>| contents(after).dom().contains(name) implies contents(after)[name]
        == target[name] by {
        let k = place_of(after, name);
        lemma_place(after, k);
        if k < files.len() {
            assert(after[k] == files[k]);
            lemma_place(files, k);
        }
    }
    assert(contents(after) =~= target);
}

/// Taking the file at place `i` out of a directory removes its name, and
/// only its name, from what the directory holds.
pub proof fn lemma_remove(files: Seq<SpoolFile>, i: int)
    requires
        names_distinct(files),
        0 <= i < files.len(),
    ensures
        names_distinct(files.remove(i)),
        !holds(files.remove(i), files[i].name@),
        contents(files.remove(i)) == contents(files).remove(files[i].name@),
{
    let after = files.remove(i);
    let gone = files[i].name@;
    assert forall|a: int, b: int| 0 <= a < b < after.len() implies #[trigger] after[a].name@
        != #[trigger] after[b].name@ by {
        let a0 = if a < i { a } else { a + 1 };
        let b0 = if b < i { b } else { b + 1 };
        assert(after[a] == files[a0] && after[b] == files[b0]);
        assert(files[a0].name@ != files[b0].name@);
    }
    if holds(after, gone) {
        let k = place_of(after, gone);
        let k0 = if k < i { k } else { k + 1 };
        assert(after[k] == files[k0]);
        if k0 < i {
            assert(files[k0].name@ != files[i].name@);
        } else {
            assert(files[i].name@ != files[k0].name@);
        }
    }
    let target = contents(files).remove(gone);
    assert forall|name: Seq<char>| contents(after).dom().contains(name) <==> target.dom().contains(
        name,
    ) by {
        if holds(after, name) {
            let k = place_of(after, name);
            let k0 = if k < i { k } else { k + 1 };
            assert(after[k] == files[k0]);
            assert(files[k0].name@ == name);
        }
        if holds(files, name) && name != gone {
            let k = place_of(files, name);
            let k1 = if k < i { k } else { k - 1 };
            assert(after[k1] == files[k]);
            assert(after[k1].name@ == name);
        }
    }
    assert forall|name: Seq<char>| contents(after).dom().contains(name) implies contents(after)[name]
        == target[name] by {
        let k = place_of(after, name);
        lemma_place(after, k);
        let k0 = if k < i { k } else { k + 1 };
        assert(after[k] == files[k0]);
        lemma_place(files, k0);
    }
    assert(contents(after) =~= target);
}

/// One directory of the spool. No two of its files share a name.
pub struct Area {
    files: Vec<SpoolFile>,
}

impl View for Area {
    type V = Map<Seq<char>, Seq<u8>>;

    /// The bytes held under each name.
    closed spec fn view(&self) -> Map<Seq<char>, Seq<u8>> {
        contents(self.files@)
    }
}

impl Area {
    /// The invariant of the type: no name occurs twice.
    pub closed spec fn wf(&self) -> bool {
        names_distinct(self.files@)
    }

    /// The names of the files, in the order in which a listing gives them.
    pub closed spec fn listing(&self) -> Seq<Seq<char>> {
        names_of(self.files@)
    }

    /// A listing names each file once, and names exactly the files that
    /// the directory holds.
    pub proof fn lemma_listing(&self)
        requires
            self.wf(),
        ensures
            self.listing().no_duplicates(),
            self.listing().to_set() == self@.dom(),
            self.listing().len() == self@.dom().len(),
            self@.dom().finite(),
    {
        let names = self.listing();
        let files = self.files@;
        assert forall|i: int, j: int| 0 <= i < names.len() && 0 <= j < names.len() && i != j implies names[i]
            != names[j] by {
            if i < j {
                assert(files[i].name@ != files[j].name@);
            } else {
                assert(files[j].name@ != files[i].name@);
            }
        }
        assert forall|name: Seq<char>| names.to_set().contains(name) <==> self@.dom().contains(
            name,
        ) by {
            if names.to_set().contains(name) {
                let i = choose|i: int| 0 <= i < names.len() && names[i] == name;
                assert(files[i].name@ == name);
            }
            if holds(files, name) {
                let i = place_of(files, name);
                assert(names[i] == name);
            }
        }
        assert(names.to_set() =~= self@.dom());
        names.unique_seq_to_set();
    }

    /// An empty directory.
    pub fn new() -> (area: Area)
        ensures
            area.wf(),
            area@ == Map::<Seq<char>, Seq<u8>>::empty(),
            area.listing() == Seq::<Seq<char>>::empty(),
    {
        let area = Area { files: Vec::new() };
        assert(area@ =~= Map::<Seq<char>, Seq<u8>>::empty());
        assert(area.listing() =~= Seq::<Seq<char>>::empty());
        area
    }

    /// The number of files.
    pub fn len(&self) -> (n: usize)
        requires
            self.wf(),
        ensures
            n == self@.dom().len(),
            n == self.listing().len(),
    {
        proof {
            self.lemma_listing();
        }
        self.files.len()
    }

    /// Where the file called `name` stands, if there is one.
    fn find(&self, name: &String) -> (place: Option<usize>)
        requires
            self.wf(),
        ensures
            match place {
                Some(i) => i < self.files@.len() && self.files@[i as int].name@ == name@,
                None => !holds(self.files@, name@),
            },
    {
        let mut i: usize = 0;
        while i < self.files.len()
            invariant
                i <= self.files@.len(),
                forall|k: int| 0 <= k < i ==> self.files@[k].name@ != name@,
            decreases self.files@.len() - i,
        {
            if self.files[i].name == *name {
                return Some(i);
            }
            i += 1;
        }
        None
    }

    /// Whether a file called `name` is there.
    pub fn contains(&self, name: &str) -> (found: bool)
        requires
            self.wf(),
        ensures
            found == self@.dom().contains(name@),
    {
        let wanted = String::from_str(name);
        self.find(&wanted).is_some()
    }

    /// The bytes of the file called `name`, if it is there.
    pub fn read(&self, name: &str) -> (content: Option<Vec<u8>>)
        requires
            self.wf(),
        ensures
            match content {
                Some(bytes) => self@.dom().contains(name@) && bytes@ == self@[name@],
                None => !self@.dom().contains(name@),
            },
    {
        let wanted = String::from_str(name);
        match self.find(&wanted) {
            Some(i) => {
                proof {
                    lemma_place(self.files@, i as int);
                }
                let bytes = self.files[i].content.clone();
                assert(bytes@ =~= self.files@[i as int].content@);
                Some(bytes)
            },
            None => None,
        }
    }

    /// Creates the file `name` with the bytes `content`, unless a file of
    /// that name is there already: nothing is ever overwritten. Tells
    /// whether the file was created; it then stands last in the listing.
    pub fn create(&mut self, name: String, content: Vec<u8>) -> (created: bool)
        requires
            old(self).wf(),
        ensures
            final(self).wf(),
            created == !old(self)@.dom().contains(name@),
            created ==> final(self)@ == old(self)@.insert(name@, content@),
            created ==> final(self).listing() == old(self).listing().push(name@),
            !created ==> final(self)@ == old(self)@,
            !created ==> final(self).listing() == old(self).listing(),
    {
        match self.find(&name) {
            Some(_) => false,
            None => {
                let file = SpoolFile { name, content };
                proof {
                    lemma_push(self.files@, file);
                }
                self.files.push(file);
                assert(self.listing() =~= old(self).listing().push(name@));
                true
            },
        }
    }

    /// Takes the file called `name` out of the directory and hands back
    /// its bytes, or `None` where no such file is there.
    pub fn take(&mut self, name: &str) -> (content: Option<Vec<u8>>)
        requires
            old(self).wf(),
        ensures
            final(self).wf(),
            final(self)@ == old(self)@.remove(name@),
            match content {
                Some(bytes) => old(self)@.dom().contains(name@) && bytes@ == old(self)@[name@],
                None => !old(self)@.dom().contains(name@),
            },
            final(self).listing() == without(old(self).listing(), name@),
    {
        let wanted = String::from_str(name);
        match self.find(&wanted) {
            Some(i) => {
                proof {
                    lemma_place(self.files@, i as int);
                    lemma_remove(self.files@, i as int);
                    lemma_listing_without(self.files@, i as int);
                }
                let file = self.files.remove(i);
                Some(file.content)
            },
            None => {
                proof {
                    assert(self@.remove(name@) =~= self@);
                    lemma_listing_untouched(self.files@, name@);
                }
                None
            },
        }
    }

    /// The names of the files, each once.
    pub fn names(&self) -> (names: Vec<String>)
        requires
            self.wf(),
        ensures
            names@.len() == self.listing().len(),
            forall|i: int| 0 <= i < names@.len() ==> (#[trigger] names@[i])@ == self.listing()[i],
    {
        let mut names: Vec<String> = Vec::new();
        let mut i: usize = 0;
        while i < self.files.len()
            invariant
                i <= self.files@.len(),
                names@.len() == i,
                forall|k: int| 0 <= k < i ==> (#[trigger] names@[k])@ == self.files@[k].name@,
            decreases self.files@.len() - i,
        {
            names.push(self.files[i].name.clone());
            i += 1;
        }
        names
    }
}

/// The listing of a directory after the file at place `i` left it is the
/// old listing without that file's name.
pub proof fn lemma_listing_without(files: Seq<SpoolFile>, i: int)
    requires
        names_distinct(files),
        0 <= i < files.len(),
    ensures
        names_of(files.remove(i)) == without(names_of(files), files[i].name@),
{
    let names = names_of(files);
    assert(names_of(files.remove(i)) =~= names.remove(i));
    lemma_filter_drops_one(names, i);
}

/// Filtering a sequence without repeats for "is not the item at `i`"
/// removes exactly that item.
pub proof fn lemma_filter_drops_one(names: Seq<Seq<char>>, i: int)
    requires
        0 <= i < names.len(),
        forall|a: int, b: int| 0 <= a < b < names.len() ==> names[a] != names[b],
    ensures
        without(names, names[i]) == names.remove(i),
    decreases names.len(),
{
    let gone = names[i];
    reveal(Seq::filter);
    let last = names.len() - 1;
    let front = names.drop_last();
    if i == last {
        lemma_filter_keeps_all(front, gone);
        assert(names.remove(i) =~= front);
    } else {
        assert(front[i] == names[i]);
        lemma_filter_drops_one(front, i);
        assert(names[i] != names[last]);
        assert(names.remove(i) =~= front.remove(i).push(names[last]));
    }
}

/// Filtering for "is not `gone`" keeps a sequence that does not hold
/// `gone` as it is.
pub proof fn lemma_filter_keeps_all(names: Seq<Seq<char>>, gone: Seq<char>)
    requires
        forall|a: int| 0 <= a < names.len() ==> names[a] != gone,
    ensures
        without(names, gone) == names,
    decreases names.len(),
{
    reveal(Seq::filter);
    if names.len() > 0 {
        lemma_filter_keeps_all(names.drop_last(), gone);
        assert(names.drop_last().push(names.last()) =~= names);
    }
}

/// A listing that lacks `name` is unchanged by filtering it out.
pub proof fn lemma_listing_untouched(files: Seq<SpoolFile>, name: Seq<char>)
    requires
        !holds(files, name),
    ensures
        without(names_of(files), name) == names_of(files),
{
    let names = names_of(files);
    assert forall|a: int| 0 <= a < names.len() implies names[a] != name by {
        assert(files[a].name@ == names[a]);
    }
    lemma_filter_keeps_all(names, name);
}

} // verus!
