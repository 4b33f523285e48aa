//! A whole scan over a tree held in memory.
//!
//! [`process_file`] is one path's turn in a pass, [`run_pass`] a whole pass,
//! and [`find_duplicates`] both passes and the report.

use vstd::prelude::*;
use crate::bucket::{multiples, texts, GroupModel};
use crate::engine::{
    active_groups,
    after_failed,
    after_hashed,
    phase_mode,
    wasted_gain,
    DuplicateDetectionEngine,
    EngineModel,
    ScanConfig,
    ScanOutcome,
    ScanPhase,
};
use crate::error::{error_models, ErrorCause, ErrorModel, ErrorRecord};
use crate::hasher::{hash_bytes, saturated, HashMode};
use crate::model::{
    failure_of,
    grouped,
    lemma_flat_map_push,
    lemma_grouped_push,
    pass_errors,
    pass_log,
    pass_wasted,
    read_outcome,
    sighting_of,
    survivors,
    ReadModel,
    Sighting,
};
use crate::report::is_report;
use crate::tree::{FileModel, FileState, MemoryTree};

verus! {

/// The state after the current pass dealt with `path`: the path is inserted
/// under its digest where it can be hashed, and logged where it cannot.
pub open spec fn after_file(
    state: EngineModel,
    tree: Map<Seq<char>, FileModel>,
    path: Seq<char>,
) -> EngineModel {
    match read_outcome(tree, path, phase_mode(state.config, state.phase)) {
        ReadModel::Hashed { digest, bytes } => after_hashed(state, path, digest, saturated(bytes)),
        ReadModel::Failed { cause, detail } => after_failed(
            state,
            ErrorModel { path, cause, detail },
        ),
    }
}

/// The state after the current pass dealt with each of `paths` in turn.
pub open spec fn after_pass(
    state: EngineModel,
    tree: Map<Seq<char>, FileModel>,
    paths: Seq<Seq<char>>,
) -> EngineModel
    decreases paths.len(),
{
    if paths.len() == 0 {
        state
    } else {
        after_file(after_pass(state, tree, paths.drop_last()), tree, paths.last())
    }
}

/// The insertions of the first pass over the candidates.
pub open spec fn prefilter_log(
    candidates: Seq<Seq<char>>,
    tree: Map<Seq<char>, FileModel>,
    config: ScanConfig,
) -> Seq<Sighting> {
    pass_log(candidates, tree, HashMode::Partial(config.partial_budget))
}

/// The paths that the second pass looks at.
pub open spec fn confirmation_paths(
    candidates: Seq<Seq<char>>,
    tree: Map<Seq<char>, FileModel>,
    config: ScanConfig,
) -> Seq<Seq<char>> {
    survivors(grouped(prefilter_log(candidates, tree, config)))
}

/// The insertions of the second pass.
pub open spec fn confirmation_log(
    candidates: Seq<Seq<char>>,
    tree: Map<Seq<char>, FileModel>,
    config: ScanConfig,
) -> Seq<Sighting> {
    pass_log(confirmation_paths(candidates, tree, config), tree, HashMode::Full)
}

/// The report of a scan: the groups that the second pass leaves with two
/// members or more.
pub open spec fn final_report(
    candidates: Seq<Seq<char>>,
    tree: Map<Seq<char>, FileModel>,
    config: ScanConfig,
) -> Seq<GroupModel> {
    multiples(grouped(confirmation_log(candidates, tree, config)))
}

/// The error log of a scan: the records of the first pass, then those of the
/// second.
pub open spec fn scan_errors(
    candidates: Seq<Seq<char>>,
    tree: Map<Seq<char>, FileModel>,
    config: ScanConfig,
) -> Seq<ErrorModel> {
    pass_errors(candidates, tree, HashMode::Partial(config.partial_budget)) + pass_errors(
        confirmation_paths(candidates, tree, config),
        tree,
        HashMode::Full,
    )
}

/// The wasted bytes that a scan ends with: those of the second pass.
pub open spec fn scan_wasted(
    candidates: Seq<Seq<char>>,
    tree: Map<Seq<char>, FileModel>,
    config: ScanConfig,
) -> nat {
    pass_wasted(confirmation_paths(candidates, tree, config), tree, HashMode::Full)
}

/// The state with the buckets of its current pass replaced.
pub open spec fn with_active(state: EngineModel, groups: Seq<GroupModel>) -> EngineModel {
    match state.phase {
        ScanPhase::Prefilter => EngineModel { prefilter: groups, ..state },
        ScanPhase::Confirmation => EngineModel { confirmed: groups, ..state },
    }
}

/// A pass that starts with empty buckets and fresh counts ends with the
/// groups of its insertions, its error records behind those that were there,
/// and its wasted total.
pub proof fn lemma_pass_from_start(
    state: EngineModel,
    tree: Map<Seq<char>, FileModel>,
    paths: Seq<Seq<char>>,
)
    requires
        active_groups(state) == Seq::<GroupModel>::empty(),
        state.wasted == 0,
        state.processed == 0,
    ensures
        after_pass(state, tree, paths) == (EngineModel {
            errors: state.errors + pass_errors(paths, tree, phase_mode(state.config, state.phase)),
            wasted: saturated(pass_wasted(paths, tree, phase_mode(state.config, state.phase))),
            processed: saturated(paths.len()),
            ..with_active(
                state,
                grouped(pass_log(paths, tree, phase_mode(state.config, state.phase))),
            )
        }),
    decreases paths.len(),
{
    let mode = phase_mode(state.config, state.phase);
    if paths.len() == 0 {
        assert(state.errors + pass_errors(paths, tree, mode) =~= state.errors);
    } else {
        let earlier = paths.drop_last();
        let last = paths.last();
        lemma_pass_from_start(state, tree, earlier);
        assert(paths =~= earlier.push(last));
        lemma_flat_map_push(earlier, last, |path: Seq<char>| sighting_of(tree, path, mode));
        lemma_flat_map_push(earlier, last, |path: Seq<char>| failure_of(tree, path, mode));
        match read_outcome(tree, last, mode) {
            ReadModel::Hashed { digest, bytes } => {
                let log = pass_log(earlier, tree, mode);
                lemma_grouped_push(log, Sighting { digest, path: last });
                assert(pass_log(paths, tree, mode) =~= log.push(
                    Sighting { digest, path: last },
                ));
                assert(state.errors + pass_errors(paths, tree, mode) =~= state.errors
                    + pass_errors(earlier, tree, mode));
            },
            ReadModel::Failed { cause, detail } => {
                assert(pass_log(paths, tree, mode) =~= pass_log(earlier, tree, mode));
                assert(state.errors + pass_errors(paths, tree, mode) =~= (state.errors
                    + pass_errors(earlier, tree, mode)).push(
                    ErrorModel { path: last, cause, detail },
                ));
            },
        }
    }
}

/// One path's turn in the current pass, against a tree held in memory: the
/// path is looked up and hashed, and inserted under its digest. The result
/// is what the path adds to the wasted total. A path that the tree does not
/// hold, or holds as unreadable, is logged and returned as an error, and
/// gets into no bucket.
pub fn process_file(engine: &mut DuplicateDetectionEngine, path: &str, tree: &MemoryTree) -> (result:
    Result<u64, ErrorRecord>)
    requires
        old(engine).wf(),
        tree.wf(),
    ensures
        final(engine).wf(),
        final(engine)@ == after_file(old(engine)@, tree@, path@),
        match read_outcome(tree@, path@, phase_mode(old(engine)@.config, old(engine)@.phase)) {
            ReadModel::Hashed { digest, bytes } => result == Ok::<u64, ErrorRecord>(
                wasted_gain(active_groups(old(engine)@), digest, saturated(bytes)),
            ),
            ReadModel::Failed { cause, detail } => result matches Err(record) && record@ == (
            ErrorModel { path: path@, cause, detail }),
        },
{
    let mode = engine.mode();
    let capacity = engine.capacity();
    match tree.lookup(path) {
        None => {
            proof {
                reveal_strlit("");
                assert(""@ =~= Seq::<char>::empty());
            }
            let record = ErrorRecord::new(path, ErrorCause::OpenFailure, "");
            let copy = record.duplicate();
            engine.record_failure(record);
            Err(copy)
        },
        Some(FileState::Unreadable(reason)) => {
            let record = ErrorRecord::new(path, ErrorCause::ReadFailure, reason.as_str());
            let copy = record.duplicate();
            engine.record_failure(record);
            Err(copy)
        },
        Some(FileState::Readable(content)) => {
            let outcome = hash_bytes(content.as_slice(), mode, capacity);
            let gain = engine.record_hashed(path.to_owned(), outcome);
            Ok(gain)
        },
    }
}

/// A whole pass: each of `paths` gets its turn, in order.
pub fn run_pass(engine: &mut DuplicateDetectionEngine, paths: &Vec<String>, tree: &MemoryTree)
    requires
        old(engine).wf(),
        tree.wf(),
    ensures
        final(engine).wf(),
        final(engine)@ == after_pass(old(engine)@, tree@, texts(paths@)),
{
    let mut i: usize = 0;
    while i < paths.len()
        invariant
            i <= paths@.len(),
            engine.wf(),
            tree.wf(),
            engine@ == after_pass(old(engine)@, tree@, texts(paths@).take(i as int)),
        decreases paths@.len() - i,
    {
        let _ = process_file(engine, paths[i].as_str(), tree);
        assert(texts(paths@).take(i + 1).drop_last() =~= texts(paths@).take(i as int));
        i += 1;
    }
    assert(texts(paths@).take(paths@.len() as int) =~= texts(paths@));
}

/// Finds the duplicate files among `candidates`, whose contents `tree`
/// holds. The first pass groups every candidate by the digest of its leading
/// bytes; the second groups the members of the first-pass groups with two
/// members or more by the digest of their whole content. The report holds the
/// second-pass groups with two members or more. A candidate that cannot be
/// read is logged and left out; it never ends the scan.
pub fn find_duplicates(candidates: &Vec<String>, tree: &MemoryTree, config: ScanConfig) -> (outcome:
    ScanOutcome)
    requires
        config.wf(),
        tree.wf(),
    ensures
        outcome.report@ == final_report(texts(candidates@), tree@, config),
        is_report(outcome.report@),
        error_models(outcome.errors@) == scan_errors(texts(candidates@), tree@, config),
        outcome.wasted == saturated(scan_wasted(texts(candidates@), tree@, config)),
{
    let mut engine = DuplicateDetectionEngine::new(config);
    let ghost start = engine@;
    run_pass(&mut engine, candidates, tree);
    proof {
        lemma_pass_from_start(start, tree@, texts(candidates@));
    }
    let ghost first = engine@;
    let survivors = engine.begin_confirmation();
    let ghost second = engine@;
    run_pass(&mut engine, &survivors, tree);
    proof {
        lemma_pass_from_start(second, tree@, texts(survivors@));
        assert(first.errors =~= pass_errors(
            texts(candidates@),
            tree@,
            HashMode::Partial(config.partial_budget),
        ));
    }
    engine.finish()
}

} // verus!
