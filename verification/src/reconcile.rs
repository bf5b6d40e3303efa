//! Replaying a lineage branch onto the trunk, one unit of content at a time.
//!
//! A unit is whatever the repository stores as one piece, a file for
//! instance. Where trunk and branch both changed a unit since the branch
//! point, the trunk's version stays: the trunk already holds what is known to
//! be in force later than the snapshot on the branch.

use vstd::prelude::*;

verus! {

/// One unit of content as three commits hold it. A version names the content
/// (by its hash, say); `None` says that the commit does not hold the unit.
#[derive(Debug, Clone, PartialEq, Eq)]
pub struct Unit {
    /// At the branch point.
    pub base: Option<Vec<u8>>,
    /// At the trunk's tip.
    pub trunk: Option<Vec<u8>>,
    /// On the lineage branch.
    pub branch: Option<Vec<u8>>,
}

/// A version as contracts speak of it.
pub open spec fn version_view(version: Option<Vec<u8>>) -> Option<Seq<u8>> {
    match version {
        Some(bytes) => Some(bytes@),
        None => None,
    }
}

/// The three versions of a unit as contracts speak of them.
pub struct UnitView {
    pub base: Option<Seq<u8>>,
    pub trunk: Option<Seq<u8>>,
    pub branch: Option<Seq<u8>>,
}

impl View for Unit {
    type V = UnitView;

    open spec fn view(&self) -> UnitView {
        UnitView {
            base: version_view(self.base),
            trunk: version_view(self.trunk),
            branch: version_view(self.branch),
        }
    }
}

/// Which version of a unit the reconciled trunk holds.
#[derive(Debug, Clone, Copy, PartialEq, Eq, Structural)]
pub enum Resolution {
    /// What the trunk's tip holds already.
    KeepTrunk,
    /// What the lineage branch holds.
    TakeBranch,
}

/// The branch's version is taken where the trunk has left the unit as it was
/// at the branch point and the branch holds something else.
pub open spec fn takes_branch(unit: UnitView) -> bool {
    unit.trunk == unit.base && unit.branch != unit.trunk
}

/// The resolution of one unit.
pub open spec fn resolution(unit: UnitView) -> Resolution {
    if takes_branch(unit) {
        Resolution::TakeBranch
    } else {
        Resolution::KeepTrunk
    }
}

/// The version of the unit that the trunk holds after the replay.
pub open spec fn reconciled(unit: UnitView) -> Option<Seq<u8>> {
    if takes_branch(unit) {
        unit.branch
    } else {
        unit.trunk
    }
}

/// The unit as the next replay of the same branch finds it: the branch point
/// and the branch are as before, the trunk holds what the first replay left.
pub open spec fn after_replay(unit: UnitView) -> UnitView {
    UnitView { base: unit.base, trunk: reconciled(unit), branch: unit.branch }
}

/// Some unit takes the branch's version, so the replay adds a commit to the
/// trunk.
pub open spec fn any_taken(resolutions: Seq<Resolution>) -> bool {
    exists|i: int| 0 <= i < resolutions.len() && resolutions[i] == Resolution::TakeBranch
}

fn same_bytes(a: &Vec<u8>, b: &Vec<u8>) -> (same: bool)
    ensures
        same == (a@ == b@),
{
    if a.len() != b.len() {
        return false;
    }
    let mut i: usize = 0;
    while i < a.len()
        invariant
            i <= a.len(),
            a.len() == b.len(),
            forall|j: int| 0 <= j < i ==> a@[j] == b@[j],
        decreases a.len() - i,
    {
        if a[i] != b[i] {
            return false;
        }
        i += 1;
    }
    assert(a@ =~= b@);
    true
}

/// Whether two versions name the same content.
pub fn same_version(a: &Option<Vec<u8>>, b: &Option<Vec<u8>>) -> (same: bool)
    ensures
        same == (version_view(*a) == version_view(*b)),
{
    match (a, b) {
        (None, None) => true,
        (Some(x), Some(y)) => same_bytes(x, y),
        _ => false,
    }
}

/// Decide one unit.
pub fn resolve(unit: &Unit) -> (decision: Resolution)
    ensures
        decision == resolution(unit@),
{
    if same_version(&unit.trunk, &unit.base) && !same_version(&unit.branch, &unit.trunk) {
        Resolution::TakeBranch
    } else {
        Resolution::KeepTrunk
    }
}

/// Decide every unit, in the order given.
pub fn reconcile(units: &Vec<Unit>) -> (decisions: Vec<Resolution>)
    ensures
        decisions@.len() == units@.len(),
        forall|i: int| 0 <= i < units@.len() ==> decisions@[i] == resolution(#[trigger] units@[i]@),
{
    let mut decisions: Vec<Resolution> = Vec::new();
    let mut i: usize = 0;
    while i < units.len()
        invariant
            i <= units.len(),
            decisions@.len() == i,
            forall|j: int| 0 <= j < i ==> decisions@[j] == resolution(#[trigger] units@[j]@),
        decreases units.len() - i,
    {
        decisions.push(resolve(&units[i]));
        i += 1;
    }
    decisions
}

/// Whether the replay leaves the trunk with anything it did not hold before.
pub fn advances(decisions: &Vec<Resolution>) -> (moved: bool)
    ensures
        moved == any_taken(decisions@),
{
    let mut i: usize = 0;
    while i < decisions.len()
        invariant
            i <= decisions.len(),
            forall|j: int| 0 <= j < i ==> decisions@[j] != Resolution::TakeBranch,
        decreases decisions.len() - i,
    {
        match decisions[i] {
            Resolution::TakeBranch => {
                return true;
            },
            Resolution::KeepTrunk => {},
        }
        i += 1;
    }
    false
}

/// The trunk wins: a unit that the trunk has changed since the branch point
/// keeps the trunk's version, whatever the branch holds. In particular, where
/// trunk and branch changed the unit in different ways, the reconciled content
/// is the trunk's and not the branch's.
pub proof fn lemma_trunk_wins(unit: UnitView)
    requires
        unit.trunk != unit.base,
    ensures
        reconciled(unit) == unit.trunk,
        resolution(unit) == Resolution::KeepTrunk,
        unit.branch != unit.trunk ==> reconciled(unit) != unit.branch,
{
}

/// A branch contributes what only it has changed: where the trunk still
/// holds the unit as it was at the branch point, the branch's version stands
/// after the replay.
pub proof fn lemma_branch_contributes(unit: UnitView)
    requires
        unit.trunk == unit.base,
    ensures
        reconciled(unit) == unit.branch,
{
}

/// Replaying the same branch a second time changes nothing: no unit takes
/// the branch's version again, every unit stays as the first replay left it,
/// and so the trunk does not move.
pub proof fn lemma_replay_is_idempotent(unit: UnitView)
    ensures
        resolution(after_replay(unit)) == Resolution::KeepTrunk,
        reconciled(after_replay(unit)) == reconciled(unit),
{
}

/// A second replay of a whole branch does not advance the trunk.
pub proof fn lemma_second_replay_stays(units: Seq<UnitView>)
    ensures
        !any_taken(units.map_values(|u: UnitView| resolution(after_replay(u)))),
{
    let again = units.map_values(|u: UnitView| resolution(after_replay(u)));
    assert forall|i: int| 0 <= i < again.len() implies again[i] != Resolution::TakeBranch by {
        lemma_replay_is_idempotent(units[i]);
    }
}

} // verus!
