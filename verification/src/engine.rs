//! The two-pass duplicate detection engine.
//!
//! The engine holds the state of a scan: the buckets of both passes, the
//! error log and the running counts. Whoever drives it hashes one path after
//! the other and hands each result in; the engine decides what that does to
//! the buckets and the counts. [`find_duplicates`] drives it over a tree held
//! in memory.

use vstd::prelude::*;
use crate::bucket::{
    group_models,
    has_group,
    inserted,
    multiples,
    texts,
    Bucketer,
    GroupModel,
};
use crate::error::{error_models, ErrorCause, ErrorModel, ErrorRecord};
use crate::hasher::{saturated, HashMode, HashOutcome};
use crate::model::{flat_map, lemma_flat_map_push, survivors};
use crate::report::{is_report, FinalReport};

verus! {

/// The sizes that a scan works with.
#[derive(Clone, Copy, Debug, PartialEq, Eq, Structural)]
pub struct ScanConfig {
    /// The byte budget of the partial digest.
    pub partial_budget: usize,
    /// The buffer size of the first pass.
    pub partial_capacity: usize,
    /// The buffer size of the second pass.
    pub full_capacity: usize,
}

impl ScanConfig {
    /// Both buffers hold at least one byte.
    pub open spec fn wf(&self) -> bool {
        self.partial_capacity > 0 && self.full_capacity > 0
    }

    /// A partial digest over the first 4 KiB through a buffer of that size,
    /// and a full digest through a buffer of 16 KiB.
    pub fn standard() -> (config: ScanConfig)
        ensures
            config.wf(),
            config.partial_budget == 4096,
            config.partial_capacity == 4096,
            config.full_capacity == 16384,
    {
        ScanConfig { partial_budget: 4096, partial_capacity: 4096, full_capacity: 16384 }
    }
}

/// Which pass a scan is in.
#[derive(Clone, Copy, Debug, PartialEq, Eq, Structural)]
pub enum ScanPhase {
    /// The first pass: every candidate, by partial digest.
    Prefilter,
    /// The second pass: the survivors of the first, by full digest.
    Confirmation,
}

/// The hash mode of a pass.
pub open spec fn phase_mode(config: ScanConfig, phase: ScanPhase) -> HashMode {
    match phase {
        ScanPhase::Prefilter => HashMode::Partial(config.partial_budget),
        ScanPhase::Confirmation => HashMode::Full,
    }
}

/// The buffer size of a pass.
pub open spec fn phase_capacity(config: ScanConfig, phase: ScanPhase) -> usize {
    match phase {
        ScanPhase::Prefilter => config.partial_capacity,
        ScanPhase::Confirmation => config.full_capacity,
    }
}

/// The state of a scan as a value of the model.
pub struct EngineModel {
    pub config: ScanConfig,
    pub phase: ScanPhase,
    /// The buckets of the first pass.
    pub prefilter: Seq<GroupModel>,
    /// The buckets of the second pass.
    pub confirmed: Seq<GroupModel>,
    /// The error log, oldest record first.
    pub errors: Seq<ErrorModel>,
    /// The wasted bytes of the current pass.
    pub wasted: u64,
    /// The number of paths that the current pass has dealt with.
    pub processed: u64,
}

/// The buckets that the current pass fills.
pub open spec fn active_groups(state: EngineModel) -> Seq<GroupModel> {
    match state.phase {
        ScanPhase::Prefilter => state.prefilter,
        ScanPhase::Confirmation => state.confirmed,
    }
}

/// The bytes that a hashed path adds to the wasted total: those read for it
/// where its digest has a group already, none where it opens one.
pub open spec fn wasted_gain(groups: Seq<GroupModel>, digest: u128, bytes: u64) -> u64 {
    if has_group(groups, digest) {
        bytes
    } else {
        0
    }
}

/// The state after `path` was hashed to `digest` from `bytes` bytes: the path
/// is inserted into the buckets of the current pass, and the counts go up.
pub open spec fn after_hashed(state: EngineModel, path: Seq<char>, digest: u128, bytes: u64)
    -> EngineModel {
    let wasted = saturated((state.wasted + wasted_gain(active_groups(state), digest, bytes)) as nat);
    let processed = saturated((state.processed + 1) as nat);
    match state.phase {
        ScanPhase::Prefilter => EngineModel {
            prefilter: inserted(state.prefilter, digest, path),
            wasted,
            processed,
            ..state
        },
        ScanPhase::Confirmation => EngineModel {
            confirmed: inserted(state.confirmed, digest, path),
            wasted,
            processed,
            ..state
        },
    }
}

/// Whether a failure is that of a path that the pass tried to hash, and so
/// counts among the paths dealt with.
pub open spec fn is_hashing_failure(cause: ErrorCause) -> bool {
    cause == ErrorCause::OpenFailure || cause == ErrorCause::ReadFailure
}

/// The state after a failure: one more record in the log and the buckets as
/// they were. A path that could not be opened or read counts among the paths
/// dealt with; an entry that never became a path to hash does not.
pub open spec fn after_failed(state: EngineModel, record: ErrorModel) -> EngineModel {
    EngineModel {
        errors: state.errors.push(record),
        processed: if is_hashing_failure(record.cause) {
            saturated((state.processed + 1) as nat)
        } else {
            state.processed
        },
        ..state
    }
}

/// The state when the second pass begins: fresh counts, everything else as
/// the first pass left it.
pub open spec fn after_prefilter(state: EngineModel) -> EngineModel {
    match state.phase {
        ScanPhase::Prefilter => EngineModel {
            phase: ScanPhase::Confirmation,
            wasted: 0,
            processed: 0,
            ..state
        },
        ScanPhase::Confirmation => state,
    }
}

/// What a scan ends with.
pub struct ScanOutcome {
    /// The confirmed duplicate groups.
    pub report: FinalReport,
    /// The error log, oldest record first.
    pub errors: Vec<ErrorRecord>,
    /// The wasted bytes of the last pass.
    pub wasted: u64,
}

impl ScanOutcome {
    /// Whether any file-level error was recorded.
    pub fn had_errors(&self) -> (had: bool)
        ensures
            had == (self.errors@.len() > 0),
    {
        self.errors.len() > 0
    }
}

/// The state of a two-pass scan.
pub struct DuplicateDetectionEngine {
    config: ScanConfig,
    phase: ScanPhase,
    prefilter: Bucketer,
    confirmed: Bucketer,
    errors: Vec<ErrorRecord>,
    wasted: u64,
    processed: u64,
}

impl View for DuplicateDetectionEngine {
    type V = EngineModel;

    closed spec fn view(&self) -> EngineModel {
        EngineModel {
            config: self.config,
            phase: self.phase,
            prefilter: self.prefilter@,
            confirmed: self.confirmed@,
            errors: error_models(self.errors@),
            wasted: self.wasted,
            processed: self.processed,
        }
    }
}

impl DuplicateDetectionEngine {
    /// Both bucketers are well formed and the buffers hold at least one byte.
    pub closed spec fn wf(&self) -> bool {
        &&& self.config.wf()
        &&& self.prefilter.wf()
        &&& self.confirmed.wf()
    }

    /// An engine at the start of the first pass.
    pub fn new(config: ScanConfig) -> (engine: DuplicateDetectionEngine)
        requires
            config.wf(),
        ensures
            engine.wf(),
            engine@ == (EngineModel {
                config,
                phase: ScanPhase::Prefilter,
                prefilter: Seq::empty(),
                confirmed: Seq::empty(),
                errors: Seq::empty(),
                wasted: 0,
                processed: 0,
            }),
    {
        let engine = DuplicateDetectionEngine {
            config,
            phase: ScanPhase::Prefilter,
            prefilter: Bucketer::new(),
            confirmed: Bucketer::new(),
            errors: Vec::new(),
            wasted: 0,
            processed: 0,
        };
        assert(error_models(engine.errors@) =~= Seq::<ErrorModel>::empty());
        engine
    }

    /// The pass that the scan is in.
    pub fn phase(&self) -> (phase: ScanPhase)
        ensures
            phase == self@.phase,
    {
        self.phase
    }

    /// The hash mode of the current pass.
    pub fn mode(&self) -> (mode: HashMode)
        ensures
            mode == phase_mode(self@.config, self@.phase),
    {
        match self.phase {
            ScanPhase::Prefilter => HashMode::Partial(self.config.partial_budget),
            ScanPhase::Confirmation => HashMode::Full,
        }
    }

    /// The buffer size of the current pass.
    pub fn capacity(&self) -> (capacity: usize)
        requires
            self.wf(),
        ensures
            capacity == phase_capacity(self@.config, self@.phase),
            capacity > 0,
    {
        match self.phase {
            ScanPhase::Prefilter => self.config.partial_capacity,
            ScanPhase::Confirmation => self.config.full_capacity,
        }
    }

    /// The wasted bytes of the current pass so far.
    pub fn wasted(&self) -> (wasted: u64)
        ensures
            wasted == self@.wasted,
    {
        self.wasted
    }

    /// The number of paths that the current pass has dealt with.
    pub fn processed(&self) -> (processed: u64)
        ensures
            processed == self@.processed,
    {
        self.processed
    }

    /// Whether any file-level error was recorded so far.
    pub fn had_errors(&self) -> (had: bool)
        ensures
            had == (self@.errors.len() > 0),
    {
        self.errors.len() > 0
    }

    /// Takes in a path that was hashed: inserts it into the buckets of the
    /// current pass. The result is what the path adds to the wasted total: the
    /// bytes read for it where it is a repeat occurrence of its digest, and 0
    /// where it is the first.
    pub fn record_hashed(&mut self, path: String, outcome: HashOutcome) -> (gain: u64)
        requires
            old(self).wf(),
        ensures
            final(self).wf(),
            final(self)@ == after_hashed(
                old(self)@,
                path@,
                outcome.digest.value,
                outcome.bytes_read,
            ),
            gain == wasted_gain(
                active_groups(old(self)@),
                outcome.digest.value,
                outcome.bytes_read,
            ),
    {
        let collision = match self.phase {
            ScanPhase::Prefilter => self.prefilter.insert(outcome.digest, path),
            ScanPhase::Confirmation => self.confirmed.insert(outcome.digest, path),
        };
        let gain = if collision {
            outcome.bytes_read
        } else {
            0
        };
        self.wasted = self.wasted.saturating_add(gain);
        self.processed = self.processed.saturating_add(1);
        gain
    }

    /// Takes in a failure: the record goes to the end of the error log and
    /// the buckets stay as they are.
    pub fn record_failure(&mut self, record: ErrorRecord)
        requires
            old(self).wf(),
        ensures
            final(self).wf(),
            final(self)@ == after_failed(old(self)@, record@),
    {
        match record.cause {
            ErrorCause::OpenFailure | ErrorCause::ReadFailure => {
                self.processed = self.processed.saturating_add(1);
            },
            _ => {},
        }
        self.errors.push(record);
        assert(error_models(self.errors@) =~= error_models(old(self).errors@).push(record@));
    }

    /// The paths that the second pass has to look at: the members of the
    /// first-pass groups with two members or more, group after group. A path
    /// whose partial digest no other path shares is not among them.
    pub fn confirmation_candidates(&self) -> (paths: Vec<String>)
        requires
            self.wf(),
        ensures
            texts(paths@) == survivors(self@.prefilter),
    {
        let found = self.prefilter.groups_with_multiple_members();
        let ghost members = |group: GroupModel| group.members;
        let mut paths: Vec<String> = Vec::new();
        let mut i: usize = 0;
        assert(texts(paths@) =~= flat_map(group_models(found@).take(0), members));
        while i < found.len()
            invariant
                i <= found@.len(),
                members == |group: GroupModel| group.members,
                texts(paths@) == flat_map(group_models(found@).take(i as int), members),
            decreases found@.len() - i,
        {
            let group = &found[i];
            let ghost start = texts(paths@);
            let mut j: usize = 0;
            while j < group.paths.len()
                invariant
                    j <= group.paths@.len(),
                    texts(paths@) == start + texts(group.paths@).take(j as int),
                decreases group.paths@.len() - j,
            {
                let ghost before = paths@;
                let path = group.paths[j].clone();
                paths.push(path);
                assert(texts(paths@) =~= texts(before).push(path@));
                assert(texts(paths@) =~= start + texts(group.paths@).take(j + 1));
                j += 1;
            }
            proof {
                assert(texts(group.paths@).take(group.paths@.len() as int) =~= texts(group.paths@));
                assert(group_models(found@).take(i + 1) =~= group_models(found@).take(
                    i as int,
                ).push(group@));
                lemma_flat_map_push(group_models(found@).take(i as int), group@, members);
            }
            i += 1;
        }
        assert(group_models(found@).take(found@.len() as int) =~= group_models(found@));
        paths
    }

    /// Ends the first pass and begins the second: the counts start afresh and
    /// the result is the list of paths to confirm. Where the second pass has
    /// begun already, nothing changes.
    pub fn begin_confirmation(&mut self) -> (paths: Vec<String>)
        requires
            old(self).wf(),
        ensures
            final(self).wf(),
            final(self)@ == after_prefilter(old(self)@),
            texts(paths@) == survivors(old(self)@.prefilter),
    {
        let paths = self.confirmation_candidates();
        match self.phase {
            ScanPhase::Prefilter => {
                self.phase = ScanPhase::Confirmation;
                self.wasted = 0;
                self.processed = 0;
            },
            ScanPhase::Confirmation => {},
        }
        paths
    }

    /// Ends the scan: the report holds the second-pass groups with two
    /// members or more, and the error log is handed over whole.
    pub fn finish(self) -> (outcome: ScanOutcome)
        requires
            self.wf(),
        ensures
            outcome.report@ == multiples(self@.confirmed),
            is_report(outcome.report@),
            error_models(outcome.errors@) == self@.errors,
            outcome.wasted == self@.wasted,
    {
        let report = FinalReport::of(&self.confirmed);
        ScanOutcome { report, errors: self.errors, wasted: self.wasted }
    }
}

} // verus!
