//! What a scan computes, stated over sequences and maps.
//!
//! A pass walks a run of paths, hashes what each one gives, and inserts the
//! path under its digest. The first pass walks the candidates with a partial
//! digest; the second walks the members of the groups that the first pass
//! left with two members or more, with a full digest. The report is what the
//! second pass leaves with two members or more.

use vstd::prelude::*;
use crate::bucket::{has_group, inserted, multiples, well_grouped, GroupModel};
use crate::error::{ErrorCause, ErrorModel};
use crate::hasher::{stream_digest, window_len, HashMode};
use crate::tree::FileModel;

verus! {

/// The pieces that `each` makes of the items, one after the other.
pub open spec fn flat_map<A, B>(items: Seq<A>, each: spec_fn(A) -> Seq<B>) -> Seq<B>
    decreases items.len(),
{
    if items.len() == 0 {
        Seq::empty()
    } else {
        flat_map(items.drop_last(), each) + each(items.last())
    }
}

/// One insertion of a pass: a path under the digest it was given.
pub struct Sighting {
    pub digest: u128,
    pub path: Seq<char>,
}

/// The groups that a run of insertions builds from nothing.
pub open spec fn grouped(log: Seq<Sighting>) -> Seq<GroupModel>
    decreases log.len(),
{
    if log.len() == 0 {
        Seq::empty()
    } else {
        inserted(grouped(log.drop_last()), log.last().digest, log.last().path)
    }
}

/// The paths that a run of insertions puts under `digest`, in order.
pub open spec fn paths_under(log: Seq<Sighting>, digest: u128) -> Seq<Seq<char>> {
    flat_map(
        log,
        |sighting: Sighting|
            if sighting.digest == digest {
                seq![sighting.path]
            } else {
                Seq::empty()
            },
    )
}

/// The members of the groups with two members or more, group after group:
/// the paths that go on to the next pass.
pub open spec fn survivors(groups: Seq<GroupModel>) -> Seq<Seq<char>> {
    flat_map(multiples(groups), |group: GroupModel| group.members)
}

/// What hashing one path comes to.
pub enum ReadModel {
    Hashed { digest: u128, bytes: nat },
    Failed { cause: ErrorCause, detail: Seq<char> },
}

/// What hashing `path` comes to against a tree: a path that the tree does not
/// hold cannot be opened, an unreadable file fails with its reason, and a
/// readable one gets the digest of its window.
pub open spec fn read_outcome(
    tree: Map<Seq<char>, FileModel>,
    path: Seq<char>,
    mode: HashMode,
) -> ReadModel {
    if !tree.contains_key(path) {
        ReadModel::Failed { cause: ErrorCause::OpenFailure, detail: Seq::empty() }
    } else {
        match tree[path] {
            FileModel::Unreadable(reason) => ReadModel::Failed {
                cause: ErrorCause::ReadFailure,
                detail: reason,
            },
            FileModel::Readable(content) => ReadModel::Hashed {
                digest: stream_digest(content, mode),
                bytes: window_len(content.len(), mode),
            },
        }
    }
}

/// The insertion that a path leads to, if it can be hashed.
pub open spec fn sighting_of(
    tree: Map<Seq<char>, FileModel>,
    path: Seq<char>,
    mode: HashMode,
) -> Seq<Sighting> {
    match read_outcome(tree, path, mode) {
        ReadModel::Hashed { digest, .. } => seq![Sighting { digest, path }],
        ReadModel::Failed { .. } => Seq::empty(),
    }
}

/// The error record that a path leads to, if it cannot be hashed.
pub open spec fn failure_of(
    tree: Map<Seq<char>, FileModel>,
    path: Seq<char>,
    mode: HashMode,
) -> Seq<ErrorModel> {
    match read_outcome(tree, path, mode) {
        ReadModel::Hashed { .. } => Seq::empty(),
        ReadModel::Failed { cause, detail } => seq![ErrorModel { path, cause, detail }],
    }
}

/// The insertions of a pass over `paths`, in order.
pub open spec fn pass_log(
    paths: Seq<Seq<char>>,
    tree: Map<Seq<char>, FileModel>,
    mode: HashMode,
) -> Seq<Sighting> {
    flat_map(paths, |path: Seq<char>| sighting_of(tree, path, mode))
}

/// The error records of a pass over `paths`, in order.
pub open spec fn pass_errors(
    paths: Seq<Seq<char>>,
    tree: Map<Seq<char>, FileModel>,
    mode: HashMode,
) -> Seq<ErrorModel> {
    flat_map(paths, |path: Seq<char>| failure_of(tree, path, mode))
}

/// The bytes that a path adds to the wasted total of a pass that has built
/// `groups` so far: the bytes read for it where it joins a group, none where
/// it opens one or cannot be hashed.
pub open spec fn wasted_by(
    groups: Seq<GroupModel>,
    tree: Map<Seq<char>, FileModel>,
    path: Seq<char>,
    mode: HashMode,
) -> nat {
    match read_outcome(tree, path, mode) {
        ReadModel::Hashed { digest, bytes } => if has_group(groups, digest) {
            bytes
        } else {
            0
        },
        ReadModel::Failed { .. } => 0,
    }
}

/// The wasted total of a pass over `paths`: the bytes read for every repeat
/// occurrence of a digest.
pub open spec fn pass_wasted(
    paths: Seq<Seq<char>>,
    tree: Map<Seq<char>, FileModel>,
    mode: HashMode,
) -> nat
    decreases paths.len(),
{
    if paths.len() == 0 {
        0
    } else {
        let earlier = paths.drop_last();
        pass_wasted(earlier, tree, mode) + wasted_by(
            grouped(pass_log(earlier, tree, mode)),
            tree,
            paths.last(),
            mode,
        )
    }
}

/// Splitting a run of items at its last one.
pub proof fn lemma_flat_map_push<A, B>(items: Seq<A>, last: A, each: spec_fn(A) -> Seq<B>)
    ensures
        flat_map(items.push(last), each) == flat_map(items, each) + each(last),
{
    assert(items.push(last).drop_last() =~= items);
}

/// One more insertion is one more call of `inserted`.
pub proof fn lemma_grouped_push(log: Seq<Sighting>, last: Sighting)
    ensures
        grouped(log.push(last)) == inserted(grouped(log), last.digest, last.path),
{
    assert(log.push(last).drop_last() =~= log);
}

/// Inserting keeps groups well grouped.
pub proof fn lemma_inserted_well_grouped(groups: Seq<GroupModel>, digest: u128, path: Seq<char>)
    requires
        well_grouped(groups),
    ensures
        well_grouped(inserted(groups, digest, path)),
{
    let after = inserted(groups, digest, path);
    if has_group(groups, digest) {
        assert forall|i: int, j: int| 0 <= i < j < after.len() implies #[trigger] after[i].digest
            != #[trigger] after[j].digest by {
            assert(after[i].digest == groups[i].digest);
            assert(after[j].digest == groups[j].digest);
        }
    } else {
        assert forall|i: int, j: int| 0 <= i < j < after.len() implies #[trigger] after[i].digest
            != #[trigger] after[j].digest by {
            assert(after[i].digest == groups[i].digest);
            if j < groups.len() {
                assert(after[j].digest == groups[j].digest);
            }
        }
    }
}

/// What a run of insertions builds is well grouped.
pub proof fn lemma_grouped_well_grouped(log: Seq<Sighting>)
    ensures
        well_grouped(grouped(log)),
    decreases log.len(),
{
    if log.len() > 0 {
        lemma_grouped_well_grouped(log.drop_last());
        lemma_inserted_well_grouped(grouped(log.drop_last()), log.last().digest, log.last().path);
    }
}

} // verus!
