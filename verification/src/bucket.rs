//! Grouping of paths by digest.
//!
//! A [`Bucketer`] keeps, for every digest it has seen, the paths inserted
//! under it in the order they came. Groups stand in the order in which their
//! digests were first seen.

use std::collections::HashMap;
use vstd::prelude::*;
use crate::digest::ContentDigest;

verus! {

broadcast use vstd::std_specs::hash::group_hash_axioms;

/// The paths that share one digest, as values of the model.
pub struct GroupModel {
    pub digest: u128,
    pub members: Seq<Seq<char>>,
}

/// The characters of each of a run of strings.
pub open spec fn texts(strings: Seq<String>) -> Seq<Seq<char>> {
    Seq::new(strings.len(), |i: int| strings[i]@)
}

/// Whether some group stands under `digest`.
pub open spec fn has_group(groups: Seq<GroupModel>, digest: u128) -> bool {
    exists|i: int| 0 <= i < groups.len() && #[trigger] groups[i].digest == digest
}

/// The place of a group that stands under `digest`.
pub open spec fn group_index(groups: Seq<GroupModel>, digest: u128) -> int {
    choose|i: int| 0 <= i < groups.len() && #[trigger] groups[i].digest == digest
}

/// The groups after `path` has been inserted under `digest`: it joins the
/// group of that digest at its end, or opens a new group behind the others.
pub open spec fn inserted(groups: Seq<GroupModel>, digest: u128, path: Seq<char>) -> Seq<
    GroupModel,
> {
    if has_group(groups, digest) {
        let at = group_index(groups, digest);
        groups.update(at, GroupModel { digest, members: groups[at].members.push(path) })
    } else {
        groups.push(GroupModel { digest, members: seq![path] })
    }
}

/// The members of the group under `digest`; none where no group stands
/// under it.
pub open spec fn members_under(groups: Seq<GroupModel>, digest: u128) -> Seq<Seq<char>> {
    if has_group(groups, digest) {
        groups[group_index(groups, digest)].members
    } else {
        Seq::empty()
    }
}

/// No two groups share a digest and no group is empty.
pub open spec fn well_grouped(groups: Seq<GroupModel>) -> bool {
    &&& forall|i: int, j: int|
        0 <= i < j < groups.len() ==> #[trigger] groups[i].digest != #[trigger] groups[j].digest
    &&& forall|i: int| 0 <= i < groups.len() ==> (#[trigger] groups[i]).members.len() >= 1
}

/// The groups with two members or more, in their order.
pub open spec fn multiples(groups: Seq<GroupModel>) -> Seq<GroupModel> {
    groups.filter(|group: GroupModel| group.members.len() >= 2)
}

/// One digest and the paths that produced it, in the order they were found.
#[derive(Debug)]
pub struct DuplicateGroup {
    pub digest: ContentDigest,
    pub paths: Vec<String>,
}

impl View for DuplicateGroup {
    type V = GroupModel;

    open spec fn view(&self) -> GroupModel {
        GroupModel { digest: self.digest.value, members: texts(self.paths@) }
    }
}

/// The models of a run of groups.
pub open spec fn group_models(groups: Seq<DuplicateGroup>) -> Seq<GroupModel> {
    Seq::new(groups.len(), |i: int| groups[i]@)
}

/// A copy of a run of strings.
pub fn copy_strings(strings: &Vec<String>) -> (copy: Vec<String>)
    ensures
        copy@ == strings@,
{
    let mut copy: Vec<String> = Vec::new();
    let mut i: usize = 0;
    while i < strings.len()
        invariant
            i <= strings@.len(),
            copy@ == strings@.take(i as int),
        decreases strings@.len() - i,
    {
        copy.push(strings[i].clone());
        assert(copy@ =~= strings@.take(i + 1));
        i += 1;
    }
    assert(strings@.take(strings@.len() as int) =~= strings@);
    copy
}

impl DuplicateGroup {
    /// A copy of the group: the same digest over the same paths.
    pub fn duplicate(&self) -> (copy: DuplicateGroup)
        ensures
            copy.digest == self.digest,
            copy.paths@ == self.paths@,
            copy@ == self@,
    {
        DuplicateGroup { digest: self.digest, paths: copy_strings(&self.paths) }
    }
}

/// Groups paths by digest.
pub struct Bucketer {
    index: HashMap<u128, usize>,
    groups: Vec<DuplicateGroup>,
}

impl View for Bucketer {
    type V = Seq<GroupModel>;

    closed spec fn view(&self) -> Seq<GroupModel> {
        group_models(self.groups@)
    }
}

impl Bucketer {
    /// The index names exactly the digests of the groups, each at its place.
    pub closed spec fn wf(&self) -> bool {
        &&& forall|i: int|
            0 <= i < self.groups@.len() ==> {
                &&& self.index@.contains_key((#[trigger] self.groups@[i]).digest.value)
                &&& self.index@[self.groups@[i].digest.value] == i
                &&& self.groups@[i].paths@.len() >= 1
            }
        &&& forall|digest: u128| #[trigger]
            self.index@.contains_key(digest) ==> {
                &&& self.index@[digest] < self.groups@.len()
                &&& self.groups@[self.index@[digest] as int].digest.value == digest
            }
    }

    /// A well-formed bucketer holds well-grouped groups.
    pub proof fn lemma_wf_well_grouped(&self)
        requires
            self.wf(),
        ensures
            well_grouped(self@),
    {
        assert forall|i: int, j: int| 0 <= i < j < self@.len() implies #[trigger] self@[i].digest
            != #[trigger] self@[j].digest by {
            assert(self.index@[self.groups@[i].digest.value] == i);
            assert(self.index@[self.groups@[j].digest.value] == j);
        }
        assert forall|i: int| 0 <= i < self@.len() implies (#[trigger] self@[i]).members.len()
            >= 1 by {
            assert(self.groups@[i].paths@.len() >= 1);
        }
    }

    /// A bucketer with no groups.
    pub fn new() -> (bucketer: Bucketer)
        ensures
            bucketer.wf(),
            bucketer@ == Seq::<GroupModel>::empty(),
    {
        let bucketer = Bucketer { index: HashMap::new(), groups: Vec::new() };
        assert(bucketer@ =~= Seq::<GroupModel>::empty());
        bucketer
    }

    /// Inserts `path` under `digest` and says whether that made a collision:
    /// whether the group it joined now has two members or more.
    pub fn insert(&mut self, digest: ContentDigest, path: String) -> (collision: bool)
        requires
            old(self).wf(),
        ensures
            final(self).wf(),
            final(self)@ == inserted(old(self)@, digest.value, path@),
            collision == has_group(old(self)@, digest.value),
    {
        let key = digest.value;
        let slot = match self.index.get(&key) {
            Some(at) => Some(*at),
            None => None,
        };
        proof {
            old(self).lemma_wf_well_grouped();
        }
        match slot {
            Some(at) => {
                assert(old(self)@[at as int].digest == key);
                assert(has_group(old(self)@, key));
                assert(group_index(old(self)@, key) == at as int);
                self.groups[at].paths.push(path);
                assert(self.groups@[at as int].paths@ == old(self).groups@[at as int].paths@.push(
                    path,
                ));
                assert(texts(self.groups@[at as int].paths@) =~= texts(
                    old(self).groups@[at as int].paths@,
                ).push(path@));
                assert(self@ =~= inserted(old(self)@, key, path@));
                true
            },
            None => {
                assert(!has_group(old(self)@, key)) by {
                    if has_group(old(self)@, key) {
                        let i = group_index(old(self)@, key);
                        assert(self.index@.contains_key(self.groups@[i].digest.value));
                    }
                }
                let at = self.groups.len();
                self.index.insert(key, at);
                let mut paths: Vec<String> = Vec::new();
                paths.push(path);
                self.groups.push(DuplicateGroup { digest, paths });
                assert(texts(self.groups@[at as int].paths@) =~= seq![path@]);
                assert(self@ =~= inserted(old(self)@, key, path@));
                false
            },
        }
    }

    /// The number of groups.
    pub fn group_count(&self) -> (count: usize)
        ensures
            count == self@.len(),
    {
        self.groups.len()
    }

    /// The group that stands under `digest`, if there is one.
    pub fn group(&self, digest: ContentDigest) -> (found: Option<&DuplicateGroup>)
        requires
            self.wf(),
        ensures
            found is Some <==> has_group(self@, digest.value),
            found matches Some(group) ==> group@ == self@[group_index(self@, digest.value)],
    {
        proof {
            self.lemma_wf_well_grouped();
        }
        match self.index.get(&digest.value) {
            Some(at) => {
                assert(self@[*at as int].digest == digest.value);
                Some(&self.groups[*at])
            },
            None => {
                assert(!has_group(self@, digest.value)) by {
                    if has_group(self@, digest.value) {
                        let i = group_index(self@, digest.value);
                        assert(self.index@.contains_key(self.groups@[i].digest.value));
                    }
                }
                None
            },
        }
    }

    /// The groups that have two members or more, in the order in which their
    /// digests were first seen. Groups with a single member are left out.
    pub fn groups_with_multiple_members(&self) -> (found: Vec<DuplicateGroup>)
        ensures
            group_models(found@) == multiples(self@),
    {
        let mut found: Vec<DuplicateGroup> = Vec::new();
        let mut i: usize = 0;
        proof {
            reveal(Seq::filter);
            assert(self@.take(0) =~= Seq::<GroupModel>::empty());
            assert(group_models(found@) =~= multiples(self@.take(0)));
        }
        while i < self.groups.len()
            invariant
                i <= self.groups@.len(),
                group_models(found@) == multiples(self@.take(i as int)),
            decreases self.groups@.len() - i,
        {
            proof {
                assert(self@.take(i + 1) =~= self@.take(i as int).push(self@[i as int]));
                self@.take(i as int).lemma_filter_push(
                    self@[i as int],
                    |group: GroupModel| group.members.len() >= 2,
                );
            }
            if self.groups[i].paths.len() >= 2 {
                let ghost before = found@;
                found.push(self.groups[i].duplicate());
                assert(group_models(found@) =~= group_models(before).push(self@[i as int]));
            }
            i += 1;
        }
        assert(self@.take(self@.len() as int) =~= self@);
        found
    }
}

} // verus!
