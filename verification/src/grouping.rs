//! How the groups that insertions build relate to the insertions.

use vstd::prelude::*;
use crate::bucket::{
    group_index,
    has_group,
    inserted,
    members_under,
    multiples,
    well_grouped,
    GroupModel,
};
use crate::model::{
    grouped,
    lemma_flat_map_push,
    lemma_grouped_well_grouped,
    lemma_inserted_well_grouped,
    paths_under,
    Sighting,
};
use crate::report::lemma_multiples_is_report;

verus! {

/// In well-grouped groups a digest names one place.
pub proof fn lemma_group_place(groups: Seq<GroupModel>, at: int)
    requires
        well_grouped(groups),
        0 <= at < groups.len(),
    ensures
        has_group(groups, groups[at].digest),
        group_index(groups, groups[at].digest) == at,
        members_under(groups, groups[at].digest) == groups[at].members,
{
    let digest = groups[at].digest;
    assert(has_group(groups, digest));
    let found = group_index(groups, digest);
    if found < at {
        assert(groups[found].digest != groups[at].digest);
    } else if at < found {
        assert(groups[at].digest != groups[found].digest);
    }
}

/// An insertion adds its path to the members under its digest and leaves the
/// members under every other digest alone.
pub proof fn lemma_inserted_members(
    groups: Seq<GroupModel>,
    digest: u128,
    path: Seq<char>,
    other: u128,
)
    requires
        well_grouped(groups),
    ensures
        has_group(inserted(groups, digest, path), other) <==> other == digest || has_group(
            groups,
            other,
        ),
        members_under(inserted(groups, digest, path), other) == if other == digest {
            members_under(groups, digest).push(path)
        } else {
            members_under(groups, other)
        },
{
    let after = inserted(groups, digest, path);
    lemma_inserted_well_grouped(groups, digest, path);
    if has_group(groups, digest) {
        let at = group_index(groups, digest);
        assert(after[at].digest == digest);
        lemma_group_place(after, at);
        if other != digest {
            if has_group(groups, other) {
                let place = group_index(groups, other);
                assert(after[place] == groups[place]);
                lemma_group_place(after, place);
            }
            if has_group(after, other) {
                let place = group_index(after, other);
                assert(after[place] == groups[place]);
                lemma_group_place(groups, place);
            }
        }
    } else {
        let at = groups.len() as int;
        assert(after[at].digest == digest);
        lemma_group_place(after, at);
        assert(seq![path] =~= Seq::<Seq<char>>::empty().push(path));
        if other != digest {
            if has_group(groups, other) {
                let place = group_index(groups, other);
                assert(after[place] == groups[place]);
                lemma_group_place(after, place);
            }
            if has_group(after, other) {
                let place = group_index(after, other);
                assert(after[place] == groups[place]);
                lemma_group_place(groups, place);
            }
        }
    }
}

/// The members under a digest are the paths that were inserted under it, in
/// the order of their insertion, and a group stands under a digest exactly
/// where a path was inserted under it.
pub proof fn lemma_grouped_members(log: Seq<Sighting>, digest: u128)
    ensures
        members_under(grouped(log), digest) == paths_under(log, digest),
        has_group(grouped(log), digest) <==> paths_under(log, digest).len() >= 1,
    decreases log.len(),
{
    if log.len() > 0 {
        let earlier = log.drop_last();
        let last = log.last();
        lemma_grouped_members(earlier, digest);
        lemma_grouped_well_grouped(earlier);
        lemma_inserted_members(grouped(earlier), last.digest, last.path, digest);
        assert(log =~= earlier.push(last));
        lemma_flat_map_push(
            earlier,
            last,
            |sighting: Sighting|
                if sighting.digest == digest {
                    seq![sighting.path]
                } else {
                    Seq::empty()
                },
        );
        if last.digest == digest {
            assert(paths_under(log, digest) =~= paths_under(earlier, digest).push(last.path));
        } else {
            assert(paths_under(log, digest) =~= paths_under(earlier, digest));
        }
    }
}

/// Among the groups with two members or more, a group stands under a digest
/// exactly where two paths or more stand under it; its members are the same.
pub proof fn lemma_multiples_members(groups: Seq<GroupModel>, digest: u128)
    requires
        well_grouped(groups),
    ensures
        has_group(multiples(groups), digest) <==> members_under(groups, digest).len() >= 2,
        members_under(multiples(groups), digest) == if members_under(groups, digest).len() >= 2 {
            members_under(groups, digest)
        } else {
            Seq::empty()
        },
{
    let pred = |group: GroupModel| group.members.len() >= 2;
    let kept = multiples(groups);
    lemma_multiples_is_report(groups);
    if has_group(kept, digest) {
        let at = group_index(kept, digest);
        lemma_group_place(kept, at);
        assert(kept.contains(kept[at]));
        groups.lemma_filter_contains_rev(pred, kept[at]);
        let place = groups.index_of(kept[at]);
        lemma_group_place(groups, place);
    }
    if members_under(groups, digest).len() >= 2 {
        let place = group_index(groups, digest);
        lemma_group_place(groups, place);
        groups.lemma_filter_contains(pred, place);
        let at = kept.index_of(groups[place]);
        lemma_group_place(kept, at);
    }
}

} // verus!
