//! What holds of every scan.
//!
//! The lemmas of the first half count how often a path occurs at each stage
//! of a scan; the laws of the second half are stated from those counts.

use vstd::prelude::*;
use vstd::seq_lib::to_multiset_contains;
use crate::bucket::{group_index, has_group, members_under, multiples, GroupModel};
use crate::counting::{
    lemma_flat_map_occurrences,
    lemma_occurrences_concat,
    lemma_occurrences_empty,
    lemma_occurrences_single,
    lemma_same_occurrences,
    lemma_tally_none,
    lemma_tally_one_place,
    lemma_tally_one_source,
    lemma_two_occurrences,
    lemma_two_places,
    occurrences,
};
use crate::engine::ScanConfig;
use crate::error::ErrorModel;
use crate::grouping::{lemma_group_place, lemma_grouped_members, lemma_multiples_members};
use crate::hasher::{stream_digest, HashMode};
use crate::model::{
    failure_of,
    grouped,
    lemma_grouped_well_grouped,
    pass_errors,
    pass_log,
    paths_under,
    read_outcome,
    sighting_of,
    survivors,
    ReadModel,
    Sighting,
};
use crate::report::{is_report, lemma_multiples_is_report};
use crate::scan::{confirmation_log, confirmation_paths, final_report, prefilter_log, scan_errors};
use crate::tree::FileModel;

verus! {

/// Whether the tree holds `path` with a content that can be read.
pub open spec fn readable(tree: Map<Seq<char>, FileModel>, path: Seq<char>) -> bool {
    tree.contains_key(path) && tree[path] is Readable
}

/// The content that the tree holds for a readable path.
pub open spec fn content_of(tree: Map<Seq<char>, FileModel>, path: Seq<char>) -> Seq<u8> {
    tree[path]->Readable_0
}

/// The digest that the first pass gives a readable path.
pub open spec fn partial_digest_of(
    tree: Map<Seq<char>, FileModel>,
    config: ScanConfig,
    path: Seq<char>,
) -> u128 {
    stream_digest(content_of(tree, path), HashMode::Partial(config.partial_budget))
}

/// The digest that the second pass gives a readable path.
pub open spec fn full_digest_of(tree: Map<Seq<char>, FileModel>, path: Seq<char>) -> u128 {
    stream_digest(content_of(tree, path), HashMode::Full)
}

/// Whether `path` gets into the second pass: it is readable, and the first
/// pass put two paths or more under its partial digest.
pub open spec fn survives(
    candidates: Seq<Seq<char>>,
    tree: Map<Seq<char>, FileModel>,
    config: ScanConfig,
    path: Seq<char>,
) -> bool {
    readable(tree, path) && paths_under(
        prefilter_log(candidates, tree, config),
        partial_digest_of(tree, config, path),
    ).len() >= 2
}

/// The groups as a mapping from digest to the set of paths under it.
pub open spec fn grouping(groups: Seq<GroupModel>) -> Map<u128, Set<Seq<char>>> {
    Map::new(
        |digest: u128| has_group(groups, digest),
        |digest: u128| members_under(groups, digest).to_set(),
    )
}

/// A pass inserts a path under a digest as often as the path stands among
/// the paths of the pass, where hashing it gives that digest; and never
/// otherwise.
pub proof fn lemma_pass_log_occurrences(
    paths: Seq<Seq<char>>,
    tree: Map<Seq<char>, FileModel>,
    mode: HashMode,
    digest: u128,
    path: Seq<char>,
)
    ensures
        occurrences(pass_log(paths, tree, mode), Sighting { digest, path }) == if readable(
            tree,
            path,
        ) && stream_digest(content_of(tree, path), mode) == digest {
            occurrences(paths, path)
        } else {
            0
        },
{
    let each = |path: Seq<char>| sighting_of(tree, path, mode);
    let item = Sighting { digest, path };
    lemma_flat_map_occurrences(paths, each, item);
    assert forall|other: Seq<char>| other != path implies occurrences(#[trigger] each(other), item)
        == 0 by {
        lemma_sighting_occurrences(tree, other, mode, item);
    }
    lemma_tally_one_source(paths, each, item, path);
    lemma_sighting_occurrences(tree, path, mode, item);
    let held = occurrences(each(path), item);
    let times = occurrences(paths, path);
    assert(times * held == if held == 1 {
        times
    } else {
        0
    }) by (nonlinear_arith)
        requires
            held == 0 || held == 1,
    ;
}

proof fn lemma_sighting_occurrences(
    tree: Map<Seq<char>, FileModel>,
    path: Seq<char>,
    mode: HashMode,
    item: Sighting,
)
    ensures
        occurrences(sighting_of(tree, path, mode), item) == if readable(tree, path)
            && item == (Sighting {
            digest: stream_digest(content_of(tree, path), mode),
            path,
        }) {
            1nat
        } else {
            0nat
        },
{
    match read_outcome(tree, path, mode) {
        ReadModel::Hashed { digest, .. } => {
            lemma_occurrences_single(Sighting { digest, path }, item);
        },
        ReadModel::Failed { .. } => {
            lemma_occurrences_empty(item);
        },
    }
}

/// A pass logs a record as often as its path stands among the paths of the
/// pass, where hashing the path fails in that way; and never otherwise.
pub proof fn lemma_pass_errors_occurrences(
    paths: Seq<Seq<char>>,
    tree: Map<Seq<char>, FileModel>,
    mode: HashMode,
    record: ErrorModel,
)
    ensures
        occurrences(pass_errors(paths, tree, mode), record) == if failure_of(
            tree,
            record.path,
            mode,
        ) == seq![record] {
            occurrences(paths, record.path)
        } else {
            0
        },
{
    let each = |path: Seq<char>| failure_of(tree, path, mode);
    lemma_flat_map_occurrences(paths, each, record);
    assert forall|other: Seq<char>| other != record.path implies occurrences(
        #[trigger] each(other),
        record,
    ) == 0 by {
        lemma_failure_occurrences(tree, other, mode, record);
    }
    lemma_tally_one_source(paths, each, record, record.path);
    lemma_failure_occurrences(tree, record.path, mode, record);
    let held = occurrences(each(record.path), record);
    let times = occurrences(paths, record.path);
    assert(times * held == if held == 1 {
        times
    } else {
        0
    }) by (nonlinear_arith)
        requires
            held == 0 || held == 1,
    ;
}

proof fn lemma_failure_occurrences(
    tree: Map<Seq<char>, FileModel>,
    path: Seq<char>,
    mode: HashMode,
    record: ErrorModel,
)
    ensures
        occurrences(failure_of(tree, path, mode), record) == if failure_of(
            tree,
            path,
            mode,
        ) == seq![record] {
            1nat
        } else {
            0nat
        },
        failure_of(tree, path, mode) == seq![record] ==> record.path == path,
{
    match read_outcome(tree, path, mode) {
        ReadModel::Hashed { .. } => {
            lemma_occurrences_empty(record);
            assert(seq![record].len() == 1);
        },
        ReadModel::Failed { cause, detail } => {
            let made = ErrorModel { path, cause, detail };
            lemma_occurrences_single(made, record);
            assert(seq![made][0] == made);
            assert(seq![record][0] == record);
        },
    }
}

/// A path stands under a digest as often as it was inserted under it.
pub proof fn lemma_paths_under_occurrences(log: Seq<Sighting>, digest: u128, path: Seq<char>)
    ensures
        occurrences(paths_under(log, digest), path) == occurrences(log, Sighting { digest, path }),
{
    let each = |sighting: Sighting|
        if sighting.digest == digest {
            seq![sighting.path]
        } else {
            Seq::empty()
        };
    let source = Sighting { digest, path };
    lemma_flat_map_occurrences(log, each, path);
    assert forall|other: Sighting| other != source implies occurrences(#[trigger] each(other), path)
        == 0 by {
        if other.digest == digest {
            lemma_occurrences_single(other.path, path);
        } else {
            lemma_occurrences_empty(path);
        }
    }
    lemma_tally_one_source(log, each, path, source);
    lemma_occurrences_single(path, path);
    assert(occurrences(log, source) * 1 == occurrences(log, source)) by (nonlinear_arith);
}

/// Where a path was inserted under one digest only, it stands among the
/// survivors as often as it was inserted, if that digest got two paths or
/// more, and not at all if it got fewer.
pub proof fn lemma_survivor_occurrences(log: Seq<Sighting>, digest: u128, path: Seq<char>)
    requires
        forall|other: u128|
            other != digest ==> #[trigger] occurrences(log, Sighting { digest: other, path }) == 0,
    ensures
        occurrences(survivors(grouped(log)), path) == if paths_under(log, digest).len() >= 2 {
            occurrences(log, Sighting { digest, path })
        } else {
            0
        },
{
    let groups = grouped(log);
    let kept = multiples(groups);
    let members = |group: GroupModel| group.members;
    lemma_grouped_well_grouped(log);
    lemma_multiples_is_report(groups);
    lemma_flat_map_occurrences(kept, members, path);
    assert forall|i: int| 0 <= i < kept.len() && kept[i].digest != digest implies occurrences(
        members(#[trigger] kept[i]),
        path,
    ) == 0 by {
        let other = kept[i].digest;
        lemma_group_place(kept, i);
        lemma_multiples_members(groups, other);
        lemma_grouped_members(log, other);
        lemma_paths_under_occurrences(log, other, path);
        assert(occurrences(log, Sighting { digest: other, path }) == 0);
    }
    lemma_multiples_members(groups, digest);
    lemma_grouped_members(log, digest);
    lemma_paths_under_occurrences(log, digest, path);
    if has_group(kept, digest) {
        let at = group_index(kept, digest);
        lemma_group_place(kept, at);
        assert forall|i: int| 0 <= i < kept.len() && i != at implies occurrences(
            members(#[trigger] kept[i]),
            path,
        ) == 0 by {
            if kept[i].digest == digest {
                lemma_group_place(kept, i);
            }
        }
        lemma_tally_one_place(kept, members, path, at);
    } else {
        assert forall|i: int| 0 <= i < kept.len() implies occurrences(
            members(#[trigger] kept[i]),
            path,
        ) == 0 by {
            if kept[i].digest == digest {
                lemma_group_place(kept, i);
            }
        }
        lemma_tally_none(kept, members, path);
    }
}

/// A path stands among the paths of the second pass as often as among the
/// candidates where it survives the first pass, and not at all where it does
/// not.
pub proof fn lemma_confirmation_occurrences(
    candidates: Seq<Seq<char>>,
    tree: Map<Seq<char>, FileModel>,
    config: ScanConfig,
    path: Seq<char>,
)
    ensures
        occurrences(confirmation_paths(candidates, tree, config), path) == if survives(
            candidates,
            tree,
            config,
            path,
        ) {
            occurrences(candidates, path)
        } else {
            0
        },
{
    let mode = HashMode::Partial(config.partial_budget);
    let log = prefilter_log(candidates, tree, config);
    let digest = partial_digest_of(tree, config, path);
    assert forall|other: u128| other != digest implies #[trigger] occurrences(
        log,
        Sighting { digest: other, path },
    ) == 0 by {
        lemma_pass_log_occurrences(candidates, tree, mode, other, path);
    }
    lemma_survivor_occurrences(log, digest, path);
    lemma_pass_log_occurrences(candidates, tree, mode, digest, path);
}

/// A path stands under a digest after the second pass as often as among the
/// candidates, where it survives the first pass and its full digest is that
/// digest; and not at all otherwise.
pub proof fn lemma_confirmed_occurrences(
    candidates: Seq<Seq<char>>,
    tree: Map<Seq<char>, FileModel>,
    config: ScanConfig,
    digest: u128,
    path: Seq<char>,
)
    ensures
        occurrences(paths_under(confirmation_log(candidates, tree, config), digest), path)
            == if survives(candidates, tree, config, path) && full_digest_of(tree, path)
            == digest {
            occurrences(candidates, path)
        } else {
            0
        },
{
    let log = confirmation_log(candidates, tree, config);
    lemma_paths_under_occurrences(log, digest, path);
    lemma_pass_log_occurrences(
        confirmation_paths(candidates, tree, config),
        tree,
        HashMode::Full,
        digest,
        path,
    );
    lemma_confirmation_occurrences(candidates, tree, config, path);
}

/// The report holds a group under a digest exactly where the second pass put
/// two paths or more under it, and the group's members are those paths.
pub proof fn lemma_report_members(
    candidates: Seq<Seq<char>>,
    tree: Map<Seq<char>, FileModel>,
    config: ScanConfig,
    digest: u128,
)
    ensures
        has_group(final_report(candidates, tree, config), digest) <==> paths_under(
            confirmation_log(candidates, tree, config),
            digest,
        ).len() >= 2,
        has_group(final_report(candidates, tree, config), digest) ==> members_under(
            final_report(candidates, tree, config),
            digest,
        ) == paths_under(confirmation_log(candidates, tree, config), digest),
{
    let log = confirmation_log(candidates, tree, config);
    lemma_grouped_well_grouped(log);
    lemma_multiples_members(grouped(log), digest);
    lemma_grouped_members(log, digest);
}

/// Files with identical content get the same digest in both passes and
/// stand together in one group of the report.
pub proof fn lemma_identical_content_reported_together(
    candidates: Seq<Seq<char>>,
    tree: Map<Seq<char>, FileModel>,
    config: ScanConfig,
    first: int,
    second: int,
)
    requires
        0 <= first < candidates.len(),
        0 <= second < candidates.len(),
        first != second,
        readable(tree, candidates[first]),
        readable(tree, candidates[second]),
        content_of(tree, candidates[first]) == content_of(tree, candidates[second]),
    ensures
        partial_digest_of(tree, config, candidates[first]) == partial_digest_of(
            tree,
            config,
            candidates[second],
        ),
        full_digest_of(tree, candidates[first]) == full_digest_of(
            tree,
            candidates[second],
        ),
        has_group(
            final_report(candidates, tree, config),
            full_digest_of(tree, candidates[first]),
        ),
        members_under(
            final_report(candidates, tree, config),
            full_digest_of(tree, candidates[first]),
        ).contains(candidates[first]),
        members_under(
            final_report(candidates, tree, config),
            full_digest_of(tree, candidates[first]),
        ).contains(candidates[second]),
{
    let one = candidates[first];
    let two = candidates[second];
    let partial = partial_digest_of(tree, config, one);
    let full = full_digest_of(tree, one);
    let early = paths_under(prefilter_log(candidates, tree, config), partial);
    let late = paths_under(confirmation_log(candidates, tree, config), full);
    lemma_two_places(candidates, first, second);
    lemma_paths_under_occurrences(prefilter_log(candidates, tree, config), partial, one);
    lemma_paths_under_occurrences(prefilter_log(candidates, tree, config), partial, two);
    lemma_pass_log_occurrences(
        candidates,
        tree,
        HashMode::Partial(config.partial_budget),
        partial,
        one,
    );
    lemma_pass_log_occurrences(
        candidates,
        tree,
        HashMode::Partial(config.partial_budget),
        partial,
        two,
    );
    lemma_two_occurrences(early, one, two);
    lemma_confirmed_occurrences(candidates, tree, config, full, one);
    lemma_confirmed_occurrences(candidates, tree, config, full, two);
    lemma_two_occurrences(late, one, two);
    lemma_report_members(candidates, tree, config, full);
    to_multiset_contains(late, one);
    to_multiset_contains(late, two);
}

/// Every member of a group of the report is a candidate that could be read,
/// and its full digest is the digest of the group.
pub proof fn lemma_report_member_has_group_digest(
    candidates: Seq<Seq<char>>,
    tree: Map<Seq<char>, FileModel>,
    config: ScanConfig,
    at: int,
    path: Seq<char>,
)
    requires
        0 <= at < final_report(candidates, tree, config).len(),
        final_report(candidates, tree, config)[at].members.contains(path),
    ensures
        candidates.contains(path),
        readable(tree, path),
        full_digest_of(tree, path) == final_report(candidates, tree, config)[at].digest,
        survives(candidates, tree, config, path),
{
    let report = final_report(candidates, tree, config);
    let digest = report[at].digest;
    lemma_grouped_well_grouped(confirmation_log(candidates, tree, config));
    lemma_multiples_is_report(grouped(confirmation_log(candidates, tree, config)));
    lemma_group_place(report, at);
    lemma_report_members(candidates, tree, config, digest);
    lemma_confirmed_occurrences(candidates, tree, config, digest, path);
    to_multiset_contains(report[at].members, path);
    to_multiset_contains(candidates, path);
}

/// Two files whose full digests differ never stand in one group of the
/// report, whatever the first pass made of them.
pub proof fn lemma_different_digests_reported_apart(
    candidates: Seq<Seq<char>>,
    tree: Map<Seq<char>, FileModel>,
    config: ScanConfig,
    first: Seq<char>,
    second: Seq<char>,
    at: int,
)
    requires
        0 <= at < final_report(candidates, tree, config).len(),
        readable(tree, first),
        readable(tree, second),
        full_digest_of(tree, first) != full_digest_of(tree, second),
    ensures
        !(final_report(candidates, tree, config)[at].members.contains(first) && final_report(
            candidates,
            tree,
            config,
        )[at].members.contains(second)),
{
    let members = final_report(candidates, tree, config)[at].members;
    if members.contains(first) && members.contains(second) {
        lemma_report_member_has_group_digest(candidates, tree, config, at, first);
        lemma_report_member_has_group_digest(candidates, tree, config, at, second);
    }
}

/// Two enumerations of the same candidates, in whatever order, end in the
/// same grouping: the same digests, each over the same set of paths.
pub proof fn lemma_enumeration_order_is_irrelevant(
    first: Seq<Seq<char>>,
    second: Seq<Seq<char>>,
    tree: Map<Seq<char>, FileModel>,
    config: ScanConfig,
)
    requires
        first.to_multiset() == second.to_multiset(),
    ensures
        grouping(final_report(first, tree, config)) == grouping(final_report(second, tree, config)),
{
    let mode = HashMode::Partial(config.partial_budget);
    assert forall|path: Seq<char>|
        survives(first, tree, config, path) == survives(second, tree, config, path) by {
        let digest = partial_digest_of(tree, config, path);
        let one = paths_under(prefilter_log(first, tree, config), digest);
        let two = paths_under(prefilter_log(second, tree, config), digest);
        assert forall|other: Seq<char>| occurrences(one, other) == occurrences(two, other) by {
            lemma_paths_under_occurrences(prefilter_log(first, tree, config), digest, other);
            lemma_paths_under_occurrences(prefilter_log(second, tree, config), digest, other);
            lemma_pass_log_occurrences(first, tree, mode, digest, other);
            lemma_pass_log_occurrences(second, tree, mode, digest, other);
        }
        lemma_same_occurrences(one, two);
    }
    assert forall|digest: u128|
        has_group(final_report(first, tree, config), digest) == has_group(
            final_report(second, tree, config),
            digest,
        ) && members_under(final_report(first, tree, config), digest).to_set() == members_under(
            final_report(second, tree, config),
            digest,
        ).to_set() by {
        let one = paths_under(confirmation_log(first, tree, config), digest);
        let two = paths_under(confirmation_log(second, tree, config), digest);
        assert forall|path: Seq<char>| occurrences(one, path) == occurrences(two, path) by {
            lemma_confirmed_occurrences(first, tree, config, digest, path);
            lemma_confirmed_occurrences(second, tree, config, digest, path);
            assert(survives(first, tree, config, path) == survives(second, tree, config, path));
        }
        lemma_same_occurrences(one, two);
        lemma_report_members(first, tree, config, digest);
        lemma_report_members(second, tree, config, digest);
    }
    assert(grouping(final_report(first, tree, config)) =~= grouping(
        final_report(second, tree, config),
    ));
}

/// No group with a single member stands in the report, nor among the
/// first-pass groups that hand their members to the second pass.
pub proof fn lemma_no_singleton_groups(
    candidates: Seq<Seq<char>>,
    tree: Map<Seq<char>, FileModel>,
    config: ScanConfig,
)
    ensures
        is_report(final_report(candidates, tree, config)),
        is_report(multiples(grouped(prefilter_log(candidates, tree, config)))),
        forall|path: Seq<char>| #[trigger]
            confirmation_paths(candidates, tree, config).contains(path) ==> paths_under(
                prefilter_log(candidates, tree, config),
                partial_digest_of(tree, config, path),
            ).len() >= 2,
{
    lemma_grouped_well_grouped(confirmation_log(candidates, tree, config));
    lemma_multiples_is_report(grouped(confirmation_log(candidates, tree, config)));
    lemma_grouped_well_grouped(prefilter_log(candidates, tree, config));
    lemma_multiples_is_report(grouped(prefilter_log(candidates, tree, config)));
    assert forall|path: Seq<char>| #[trigger]
        confirmation_paths(candidates, tree, config).contains(path) implies paths_under(
        prefilter_log(candidates, tree, config),
        partial_digest_of(tree, config, path),
    ).len() >= 2 by {
        to_multiset_contains(confirmation_paths(candidates, tree, config), path);
        lemma_confirmation_occurrences(candidates, tree, config, path);
    }
}

/// A candidate that cannot be read is logged once for each time it was
/// enumerated, always with the same record, and gets into no bucket of either
/// pass.
pub proof fn lemma_unreadable_candidate_is_logged_and_left_out(
    candidates: Seq<Seq<char>>,
    tree: Map<Seq<char>, FileModel>,
    config: ScanConfig,
    record: ErrorModel,
)
    requires
        failure_of(tree, record.path, HashMode::Partial(config.partial_budget)) == seq![record],
    ensures
        occurrences(scan_errors(candidates, tree, config), record) == occurrences(
            candidates,
            record.path,
        ),
        forall|at: int|
            0 <= at < scan_errors(candidates, tree, config).len() && (#[trigger] scan_errors(
                candidates,
                tree,
                config,
            )[at]).path == record.path ==> scan_errors(candidates, tree, config)[at] == record,
        !confirmation_paths(candidates, tree, config).contains(record.path),
        forall|at: int|
            0 <= at < grouped(prefilter_log(candidates, tree, config)).len() ==> !(#[trigger] grouped(
                prefilter_log(candidates, tree, config),
            )[at]).members.contains(record.path),
        forall|at: int|
            0 <= at < grouped(confirmation_log(candidates, tree, config)).len() ==> !(
            #[trigger] grouped(confirmation_log(candidates, tree, config))[at]).members.contains(
                record.path,
            ),
        forall|at: int|
            0 <= at < final_report(candidates, tree, config).len() ==> !(#[trigger] final_report(
                candidates,
                tree,
                config,
            )[at]).members.contains(record.path),
{
    let path = record.path;
    let partial = HashMode::Partial(config.partial_budget);
    let survivors = confirmation_paths(candidates, tree, config);
    let errors = scan_errors(candidates, tree, config);
    assert(seq![record].len() == 1);
    assert(!readable(tree, path));
    assert(failure_of(tree, path, HashMode::Full) == seq![record]);
    lemma_pass_errors_occurrences(candidates, tree, partial, record);
    lemma_pass_errors_occurrences(survivors, tree, HashMode::Full, record);
    lemma_occurrences_concat(
        pass_errors(candidates, tree, partial),
        pass_errors(survivors, tree, HashMode::Full),
        record,
    );
    lemma_confirmation_occurrences(candidates, tree, config, path);
    to_multiset_contains(survivors, path);
    assert forall|at: int| 0 <= at < errors.len() && (#[trigger] errors[at]).path
        == path implies errors[at] == record by {
        let found = errors[at];
        assert(errors.contains(found));
        to_multiset_contains(errors, found);
        lemma_pass_errors_occurrences(candidates, tree, partial, found);
        lemma_pass_errors_occurrences(survivors, tree, HashMode::Full, found);
        lemma_occurrences_concat(
            pass_errors(candidates, tree, partial),
            pass_errors(survivors, tree, HashMode::Full),
            found,
        );
        assert(seq![found][0] == found);
        assert(seq![record][0] == record);
    }
    assert forall|at: int|
        0 <= at < grouped(prefilter_log(candidates, tree, config)).len() implies !(
    #[trigger] grouped(prefilter_log(candidates, tree, config))[at]).members.contains(path) by {
        lemma_absent_from_groups(candidates, tree, partial, path, at);
    }
    assert forall|at: int|
        0 <= at < grouped(confirmation_log(candidates, tree, config)).len() implies !(
    #[trigger] grouped(confirmation_log(candidates, tree, config))[at]).members.contains(path) by {
        lemma_absent_from_groups(survivors, tree, HashMode::Full, path, at);
    }
    assert forall|at: int| 0 <= at < final_report(candidates, tree, config).len() implies !(
    #[trigger] final_report(candidates, tree, config)[at]).members.contains(path) by {
        if final_report(candidates, tree, config)[at].members.contains(path) {
            lemma_report_member_has_group_digest(candidates, tree, config, at, path);
        }
    }
}

proof fn lemma_absent_from_groups(
    paths: Seq<Seq<char>>,
    tree: Map<Seq<char>, FileModel>,
    mode: HashMode,
    path: Seq<char>,
    at: int,
)
    requires
        !readable(tree, path),
        0 <= at < grouped(pass_log(paths, tree, mode)).len(),
    ensures
        !grouped(pass_log(paths, tree, mode))[at].members.contains(path),
{
    let log = pass_log(paths, tree, mode);
    let groups = grouped(log);
    let digest = groups[at].digest;
    lemma_grouped_well_grouped(log);
    lemma_group_place(groups, at);
    lemma_grouped_members(log, digest);
    lemma_paths_under_occurrences(log, digest, path);
    lemma_pass_log_occurrences(paths, tree, mode, digest, path);
    to_multiset_contains(groups[at].members, path);
}

} // verus!
