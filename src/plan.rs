use vstd::prelude::*;

use crate::rows::{contains_id, distinct_ids, id_set, rows_map, stale, stale_ids};
use crate::types::IdAndModified;

verus! {

/// The ids of `from` that `have` lacks, each once.
pub fn missing_ids(have: &Vec<String>, from: &Vec<String>) -> (r: Vec<String>)
    ensures
        id_set(r@) == id_set(from@).difference(id_set(have@)),
        distinct_ids(r@),
{
    let ghost target = id_set(from@).difference(id_set(have@));
    let mut out: Vec<String> = Vec::new();
    let mut i: usize = 0;
    while i < from.len()
        invariant
            0 <= i <= from.len(),
            target == id_set(from@).difference(id_set(have@)),
            distinct_ids(out@),
            forall|m: int| 0 <= m < out.len() ==> target.contains((#[trigger] out@[m])@),
            forall|j: int|
                0 <= j < i && #[trigger] target.contains(from@[j]@) ==> id_set(out@).contains(
                    from@[j]@,
                ),
        decreases from.len() - i,
    {
        let id = &from[i];
        if !contains_id(have, id) && !contains_id(&out, id) {
            let ghost old_out = out@;
            assert(id_set(from@).contains(id@));
            out.push(id.clone());
            assert(out@[old_out.len() as int]@ == id@);
            assert forall|j: int|
                0 <= j < i + 1 && #[trigger] target.contains(from@[j]@) implies id_set(
                    out@,
                ).contains(from@[j]@) by {
                if j < i {
                    let m = choose|m: int| 0 <= m < old_out.len() && #[trigger] old_out[m]@ == from@[j]@;
                    assert(out@[m] == old_out[m]);
                }
            }
        }
        i += 1;
    }
    assert forall|k: Seq<char>| target.contains(k) implies id_set(out@).contains(k) by {
        let j = choose|j: int| 0 <= j < from@.len() && #[trigger] from@[j]@ == k;
    }
    assert forall|k: Seq<char>| id_set(out@).contains(k) implies target.contains(k) by {
        let m = choose|m: int| 0 <= m < out@.len() && #[trigger] out@[m]@ == k;
    }
    assert(id_set(out@) =~= target);
    out
}

/// The tombstones that each side of a pair of replicas lacks.
pub struct DeletionPlan {
    /// Deleted on the remote side and not yet on the local side.
    pub local_missing: Vec<String>,
    /// Deleted on the local side and not yet on the remote side.
    pub remote_missing: Vec<String>,
}

impl DeletionPlan {
    /// Whether applying the plan changes either side.
    pub fn changes_anything(&self) -> (r: bool)
        ensures
            r == (self.local_missing.len() > 0 || self.remote_missing.len() > 0),
    {
        self.local_missing.len() > 0 || self.remote_missing.len() > 0
    }
}

/// Compares the tombstone sets of a local and a remote replica.
pub fn plan_deletions(local: &Vec<String>, remote: &Vec<String>) -> (r: DeletionPlan)
    ensures
        id_set(r.local_missing@) == id_set(remote@).difference(id_set(local@)),
        id_set(r.remote_missing@) == id_set(local@).difference(id_set(remote@)),
        distinct_ids(r.local_missing@),
        distinct_ids(r.remote_missing@),
{
    DeletionPlan { local_missing: missing_ids(local, remote), remote_missing: missing_ids(remote, local) }
}

/// The live rows that each side of a pair of replicas must receive.
pub struct UpsertPlan {
    /// Ids whose remote row is to be written to the local side.
    pub to_local: Vec<String>,
    /// Ids whose local row is to be written to the remote side.
    pub to_remote: Vec<String>,
}

impl UpsertPlan {
    /// Whether applying the plan changes either side.
    pub fn changes_anything(&self) -> (r: bool)
        ensures
            r == (self.to_local.len() > 0 || self.to_remote.len() > 0),
    {
        self.to_local.len() > 0 || self.to_remote.len() > 0
    }
}

/// Compares the `{id: modified}` listings of one table on both sides: an id
/// goes to the side that lacks it or holds it with a strictly older stamp.
/// Equal stamps count as converged. Where a listing repeats an id, its last
/// entry counts.
pub fn plan_upserts(local: &Vec<IdAndModified>, remote: &Vec<IdAndModified>) -> (r: UpsertPlan)
    ensures
        id_set(r.to_local@) == stale(rows_map(local@), rows_map(remote@)),
        id_set(r.to_remote@) == stale(rows_map(remote@), rows_map(local@)),
        distinct_ids(r.to_local@),
        distinct_ids(r.to_remote@),
{
    UpsertPlan { to_local: stale_ids(local, remote), to_remote: stale_ids(remote, local) }
}

} // verus!
