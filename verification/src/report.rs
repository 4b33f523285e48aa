//! The final report: the confirmed duplicate groups.

use vstd::prelude::*;
use crate::bucket::{group_models, multiples, well_grouped, Bucketer, DuplicateGroup, GroupModel};

verus! {

/// Every group has two members or more, and no two groups share a digest.
pub open spec fn is_report(groups: Seq<GroupModel>) -> bool {
    &&& well_grouped(groups)
    &&& forall|i: int| 0 <= i < groups.len() ==> (#[trigger] groups[i]).members.len() >= 2
}

/// The groups with two members or more of well-grouped groups make a report.
pub proof fn lemma_multiples_is_report(groups: Seq<GroupModel>)
    requires
        well_grouped(groups),
    ensures
        is_report(multiples(groups)),
    decreases groups.len(),
{
    reveal(Seq::filter);
    let pred = |group: GroupModel| group.members.len() >= 2;
    if groups.len() > 0 {
        let earlier = groups.drop_last();
        lemma_multiples_is_report(earlier);
        let kept = multiples(groups);
        assert forall|i: int, j: int| 0 <= i < j < kept.len() implies #[trigger] kept[i].digest
            != #[trigger] kept[j].digest by {
            if j == multiples(earlier).len() {
                earlier.lemma_filter_contains_rev(pred, kept[i]);
                let at = earlier.index_of(kept[i]);
                assert(groups[at] == kept[i]);
                assert(groups[groups.len() - 1] == kept[j]);
            }
        }
    }
}

/// The confirmed duplicate groups of a scan, in the order in which their
/// digests were first seen.
pub struct FinalReport {
    groups: Vec<DuplicateGroup>,
}

impl View for FinalReport {
    type V = Seq<GroupModel>;

    closed spec fn view(&self) -> Seq<GroupModel> {
        group_models(self.groups@)
    }
}

impl FinalReport {
    /// The report of what a bucketer holds: its groups with two members or
    /// more. No group with a single member gets into a report.
    pub fn of(confirmed: &Bucketer) -> (report: FinalReport)
        requires
            confirmed.wf(),
        ensures
            report@ == multiples(confirmed@),
            is_report(report@),
    {
        proof {
            confirmed.lemma_wf_well_grouped();
            lemma_multiples_is_report(confirmed@);
        }
        FinalReport { groups: confirmed.groups_with_multiple_members() }
    }

    /// The groups of the report.
    pub fn groups(&self) -> (groups: &Vec<DuplicateGroup>)
        ensures
            group_models(groups@) == self@,
    {
        &self.groups
    }

    /// The number of groups.
    pub fn group_count(&self) -> (count: usize)
        ensures
            count == self@.len(),
    {
        self.groups.len()
    }

    /// Whether the report holds no group.
    pub fn is_empty(&self) -> (empty: bool)
        ensures
            empty == (self@.len() == 0),
    {
        self.groups.len() == 0
    }
}

} // verus!
