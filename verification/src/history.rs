//! Where in the trunk's history a snapshot belongs.

use vstd::prelude::*;
use crate::error::Error;

verus! {

/// The commit a lineage branch starts from.
#[derive(Debug, Clone, Copy, PartialEq, Eq, Structural)]
pub enum BranchPoint {
    /// No commit precedes the snapshot: the branch starts from the empty
    /// state the repository was created with.
    Root,
    /// The commit at this position of the walk that started at the trunk's
    /// tip.
    Commit(usize),
}

/// `walk[i]` is older than `instance` and nothing before it in the walk is.
pub open spec fn is_branch_point(walk: Seq<i64>, instance: i64, i: int) -> bool {
    &&& 0 <= i < walk.len()
    &&& walk[i] < instance
    &&& forall|j: int| 0 <= j < i ==> walk[j] >= instance
}

/// No commit of the walk is older than `instance`.
pub open spec fn none_precedes(walk: Seq<i64>, instance: i64) -> bool {
    forall|j: int| 0 <= j < walk.len() ==> walk[j] >= instance
}

/// The walk goes from newer commits to older ones.
pub open spec fn newest_first(walk: Seq<i64>) -> bool {
    forall|i: int, j: int| 0 <= i <= j < walk.len() ==> walk[i] >= walk[j]
}

/// Find the first commit just before `instance`.
///
/// `walk` holds the commit times, in seconds, of the trunk's history in the
/// order of a walk from the tip backwards. The result is the position of the
/// first commit of the walk that is older than `instance`; a commit made at
/// `instance` itself does not count as older.
pub fn find_branch_point(walk: &Vec<i64>, instance: i64) -> (found: Result<usize, Error>)
    ensures
        match found {
            Ok(i) => is_branch_point(walk@, instance, i as int),
            Err(e) => e == Error::NoBranchPoint && none_precedes(walk@, instance),
        },
{
    let mut i: usize = 0;
    while i < walk.len()
        invariant
            i <= walk.len(),
            forall|j: int| 0 <= j < i ==> walk@[j] >= instance,
        decreases walk.len() - i,
    {
        if walk[i] < instance {
            return Ok(i);
        }
        i += 1;
    }
    Err(Error::NoBranchPoint)
}

/// The start of the branch for a snapshot that takes effect at `instance`:
/// the commit just before it, or the repository's empty state where no
/// commit is older.
pub fn branch_point_or_root(walk: &Vec<i64>, instance: i64) -> (at: BranchPoint)
    ensures
        match at {
            BranchPoint::Commit(i) => is_branch_point(walk@, instance, i as int),
            BranchPoint::Root => none_precedes(walk@, instance),
        },
{
    match find_branch_point(walk, instance) {
        Ok(i) => BranchPoint::Commit(i),
        Err(_) => BranchPoint::Root,
    }
}

/// At most one position of a walk is its branch point.
pub proof fn lemma_branch_point_unique(walk: Seq<i64>, instance: i64, i: int, k: int)
    requires
        is_branch_point(walk, instance, i),
        is_branch_point(walk, instance, k),
    ensures
        i == k,
{
    if i < k {
        assert(walk[i] >= instance);
    } else if k < i {
        assert(walk[k] >= instance);
    }
}

/// In a walk from newer to older commits the branch point is the latest
/// commit before `instance`: everything after it is older than `instance`
/// too, and nothing older than `instance` is newer than it.
pub proof fn lemma_branch_point_is_latest(walk: Seq<i64>, instance: i64, i: int)
    requires
        newest_first(walk),
        is_branch_point(walk, instance, i),
    ensures
        forall|j: int| i <= j < walk.len() ==> walk[j] < instance,
        forall|j: int| 0 <= j < walk.len() && walk[j] < instance ==> walk[j] <= walk[i],
{
    assert forall|j: int| 0 <= j < walk.len() && walk[j] < instance implies walk[j] <= walk[i] by {
        if j < i {
            assert(walk[j] >= instance);
        }
    }
}

/// A commit that is not older than `instance` does not change which commit
/// the branch starts from, wherever the walk meets it: the branch point only
/// moves one place down if the new commit comes before it.
pub proof fn lemma_branch_point_stable(walk: Seq<i64>, instance: i64, i: int, at: int, time: i64)
    requires
        is_branch_point(walk, instance, i),
        0 <= at <= i,
        time >= instance,
    ensures
        is_branch_point(walk.insert(at, time), instance, i + 1),
        walk.insert(at, time)[i + 1] == walk[i],
{
    let longer = walk.insert(at, time);
    assert forall|j: int| 0 <= j < i + 1 implies longer[j] >= instance by {
        if j < at {
            assert(longer[j] == walk[j]);
        } else if j == at {
        } else {
            assert(longer[j] == walk[j - 1]);
        }
    }
}

} // verus!
