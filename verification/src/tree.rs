//! A file tree held in memory: what each path would give a reader.
//!
//! It stands in for the file system wherever a scan is to run on values: a
//! path that the tree does not hold cannot be opened, one that it holds as
//! unreadable fails on its first read.

use vstd::prelude::*;
use crate::bucket::texts;

verus! {

/// What a path gives a reader, as a value of the model.
pub enum FileModel {
    Readable(Seq<u8>),
    Unreadable(Seq<char>),
}

/// What a path gives a reader: its content, or the reason why reads fail.
#[derive(Debug)]
pub enum FileState {
    Readable(Vec<u8>),
    Unreadable(String),
}

impl View for FileState {
    type V = FileModel;

    open spec fn view(&self) -> FileModel {
        match self {
            FileState::Readable(content) => FileModel::Readable(content@),
            FileState::Unreadable(reason) => FileModel::Unreadable(reason@),
        }
    }
}

/// A path and what it gives a reader.
#[derive(Debug)]
pub struct TreeEntry {
    pub path: String,
    pub state: FileState,
}

/// A set of files by path, in the order in which the paths were added.
pub struct MemoryTree {
    entries: Vec<TreeEntry>,
}

/// The paths of a run of entries.
pub open spec fn entry_paths(entries: Seq<TreeEntry>) -> Seq<Seq<char>> {
    Seq::new(entries.len(), |i: int| entries[i].path@)
}

impl View for MemoryTree {
    type V = Map<Seq<char>, FileModel>;

    closed spec fn view(&self) -> Map<Seq<char>, FileModel> {
        Map::new(
            |path: Seq<char>| entry_paths(self.entries@).contains(path),
            |path: Seq<char>| self.entries@[entry_paths(self.entries@).index_of(path)].state@,
        )
    }
}

impl MemoryTree {
    /// The paths of the tree in the order in which they were added.
    pub closed spec fn listing(&self) -> Seq<Seq<char>> {
        entry_paths(self.entries@)
    }

    /// No path stands twice.
    pub closed spec fn wf(&self) -> bool {
        entry_paths(self.entries@).no_duplicates()
    }

    /// The listing names each path of the tree once.
    pub proof fn lemma_listing(&self)
        requires
            self.wf(),
        ensures
            self.listing().no_duplicates(),
            forall|path: Seq<char>| self.listing().contains(path) <==> self@.contains_key(path),
    {
    }

    /// A tree without files.
    pub fn new() -> (tree: MemoryTree)
        ensures
            tree.wf(),
            tree@ == Map::<Seq<char>, FileModel>::empty(),
            tree.listing() == Seq::<Seq<char>>::empty(),
    {
        let tree = MemoryTree { entries: Vec::new() };
        assert(tree@ =~= Map::<Seq<char>, FileModel>::empty());
        assert(tree.listing() =~= Seq::<Seq<char>>::empty());
        tree
    }

    fn position(&self, path: &String) -> (found: Option<usize>)
        requires
            self.wf(),
        ensures
            found is Some <==> entry_paths(self.entries@).contains(path@),
            found matches Some(at) ==> at < self.entries@.len() && at as int == entry_paths(
                self.entries@,
            ).index_of(path@),
    {
        let mut i: usize = 0;
        while i < self.entries.len()
            invariant
                i <= self.entries@.len(),
                self.wf(),
                forall|j: int| 0 <= j < i ==> entry_paths(self.entries@)[j] != path@,
            decreases self.entries@.len() - i,
        {
            if self.entries[i].path == *path {
                assert(entry_paths(self.entries@)[i as int] == path@);
                return Some(i);
            }
            i += 1;
        }
        None
    }

    /// Puts a file into the tree. A path that the tree holds already keeps its
    /// place and gets the new state.
    pub fn insert(&mut self, path: String, state: FileState)
        requires
            old(self).wf(),
        ensures
            final(self).wf(),
            final(self)@ == old(self)@.insert(path@, state@),
            final(self).listing() == if old(self)@.contains_key(path@) {
                old(self).listing()
            } else {
                old(self).listing().push(path@)
            },
    {
        let ghost before = entry_paths(self.entries@);
        match self.position(&path) {
            Some(at) => {
                self.entries[at].state = state;
                assert(entry_paths(self.entries@) =~= before);
                assert(self@ =~= old(self)@.insert(path@, state@));
            },
            None => {
                self.entries.push(TreeEntry { path, state });
                assert(entry_paths(self.entries@) =~= before.push(path@));
                let ghost after = entry_paths(self.entries@);
                assert(after.no_duplicates()) by {
                    assert forall|i: int, j: int|
                        0 <= i < after.len() && 0 <= j < after.len() && i != j implies after[i]
                        != after[j] by {
                        if i < before.len() {
                            assert(before[i] == after[i]);
                        }
                        if j < before.len() {
                            assert(before[j] == after[j]);
                        }
                    }
                }
                assert forall|other: Seq<char>| #[trigger]
                    after.contains(other) implies self@[other] == old(self)@.insert(
                    path@,
                    state@,
                )[other] by {
                    let i = after.index_of(other);
                    if i < before.len() {
                        assert(before[i] == other);
                        assert(before[before.index_of(other)] == other);
                        assert(i == before.index_of(other));
                    }
                }
                assert forall|other: Seq<char>| #[trigger]
                    after.contains(other) <==> (before.contains(other) || other == path@) by {
                    if before.contains(other) {
                        assert(after[before.index_of(other)] == other);
                    }
                    if other == path@ {
                        assert(after[before.len() as int] == other);
                    }
                }
                assert(self@ =~= old(self)@.insert(path@, state@));
            },
        }
    }

    /// What `path` gives a reader, if the tree holds it.
    pub fn lookup(&self, path: &str) -> (found: Option<&FileState>)
        requires
            self.wf(),
        ensures
            found is Some <==> self@.contains_key(path@),
            found matches Some(state) ==> state@ == self@[path@],
    {
        let wanted = path.to_owned();
        match self.position(&wanted) {
            Some(at) => Some(&self.entries[at].state),
            None => None,
        }
    }

    /// The number of files.
    pub fn len(&self) -> (count: usize)
        ensures
            count == self.listing().len(),
    {
        self.entries.len()
    }

    /// The paths of the tree in the order in which they were added: what a
    /// walker over the tree enumerates.
    pub fn paths(&self) -> (paths: Vec<String>)
        ensures
            texts(paths@) == self.listing(),
    {
        let mut paths: Vec<String> = Vec::new();
        let mut i: usize = 0;
        while i < self.entries.len()
            invariant
                i <= self.entries@.len(),
                paths@.len() == i,
                texts(paths@) == entry_paths(self.entries@).take(i as int),
            decreases self.entries@.len() - i,
        {
            let ghost before = paths@;
            let path = self.entries[i].path.clone();
            paths.push(path);
            assert forall|j: int| 0 <= j < i + 1 implies texts(paths@)[j] == entry_paths(
                self.entries@,
            )[j] by {
                if j < i {
                    assert(texts(before)[j] == entry_paths(self.entries@).take(i as int)[j]);
                }
            }
            assert(texts(paths@) =~= entry_paths(self.entries@).take(i + 1));
            i += 1;
        }
        assert(entry_paths(self.entries@).take(self.entries@.len() as int) =~= entry_paths(
            self.entries@,
        ));
        paths
    }
}

} // verus!
