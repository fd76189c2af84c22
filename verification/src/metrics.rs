//! How many images there are of each status.

use crate::sort::update_models;
use crate::update::{Update, UpdateModel};
use vstd::prelude::*;

verus! {

/// The number of images checked, and of each status among them.
#[derive(Clone, Copy, Debug, PartialEq, Eq, Structural)]
pub struct Metrics {
    pub monitored_images: usize,
    pub updates_available: usize,
    pub major_updates: usize,
    pub minor_updates: usize,
    pub patch_updates: usize,
    pub other_updates: usize,
    pub up_to_date: usize,
    pub unknown: usize,
}

/// How many of the reports have a status of the rank `rank`.
pub open spec fn count_rank(reports: Seq<UpdateModel>, rank: nat) -> nat
    decreases reports.len(),
{
    if reports.len() == 0 {
        0
    } else {
        count_rank(reports.drop_last(), rank) + if reports.last().status().rank() == rank {
            1nat
        } else {
            0nat
        }
    }
}

/// No more reports have a rank than there are reports.
pub proof fn lemma_count_bound(reports: Seq<UpdateModel>, rank: nat)
    ensures
        count_rank(reports, rank) <= reports.len(),
    decreases reports.len(),
{
    if reports.len() > 0 {
        lemma_count_bound(reports.drop_last(), rank);
    }
}

/// Every report has one of the six ranks.
pub proof fn lemma_count_all(reports: Seq<UpdateModel>)
    ensures
        count_rank(reports, 0) + count_rank(reports, 1) + count_rank(reports, 2) + count_rank(
            reports,
            3,
        ) + count_rank(reports, 4) + count_rank(reports, 5) == reports.len(),
    decreases reports.len(),
{
    if reports.len() > 0 {
        lemma_count_all(reports.drop_last());
    }
}

/// Counts the reports of each status. An unknown status counts as no
/// update.
pub fn get_metrics(updates: &[Update]) -> (r: Metrics)
    requires
        forall|i: int| 0 <= i < updates.len() ==> (#[trigger] updates@[i])@.well_formed(),
    ensures
        r.monitored_images == updates.len(),
        r.major_updates == count_rank(update_models(updates@), 0),
        r.minor_updates == count_rank(update_models(updates@), 1),
        r.patch_updates == count_rank(update_models(updates@), 2),
        r.other_updates == count_rank(update_models(updates@), 3),
        r.up_to_date == count_rank(update_models(updates@), 4),
        r.unknown == count_rank(update_models(updates@), 5),
        r.updates_available == r.major_updates + r.minor_updates + r.patch_updates
            + r.other_updates,
{
    let ghost all = update_models(updates@);
    let mut counts: [usize; 6] = [0, 0, 0, 0, 0, 0];
    let mut i: usize = 0;
    assert(all.subrange(0, 0) =~= Seq::<UpdateModel>::empty());
    while i < updates.len()
        invariant
            i <= updates.len(),
            all == update_models(updates@),
            forall|k: int| 0 <= k < updates.len() ==> (#[trigger] updates@[k])@.well_formed(),
            forall|k: int| 0 <= k < 6 ==> counts@[k] == count_rank(all.subrange(0, i as int), k as nat),
        decreases updates.len() - i,
    {
        let ghost now = all.subrange(0, i + 1);
        assert(now.drop_last() =~= all.subrange(0, i as int));
        assert(now.last() == updates@[i as int]@);
        let rank = updates[i].get_status().rank() as usize;
        proof {
            lemma_count_bound(all.subrange(0, i as int), rank as nat);
        }
        counts[rank] = counts[rank] + 1;
        i += 1;
    }
    assert(all.subrange(0, updates.len() as int) =~= all);
    proof {
        lemma_count_all(all);
    }
    Metrics {
        monitored_images: updates.len(),
        updates_available: counts[0] + counts[1] + counts[2] + counts[3],
        major_updates: counts[0],
        minor_updates: counts[1],
        patch_updates: counts[2],
        other_updates: counts[3],
        up_to_date: counts[4],
        unknown: counts[5],
    }
}

} // verus!
