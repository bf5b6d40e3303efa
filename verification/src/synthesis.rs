//! One run of the history synthesis: a snapshot is placed on a branch of its
//! own, committed there and replayed onto the trunk.
//!
//! The run itself touches no repository. It says what is to be done next
//! ([`Request`]), is told how that went ([`Event`]) and decides what follows.
//! The trunk is asked to move in one place only, after everything else has
//! succeeded.

use vstd::prelude::*;
use vstd::string::StringExecFns;
use crate::error::Error;
use crate::history::{branch_point_or_root, is_branch_point, none_precedes, BranchPoint};
use crate::reconcile::{
    advances, after_replay, any_taken, reconcile, resolution, Resolution, Unit, UnitView,
};
use crate::snapshot::Snapshot;

verus! {

/// The name under which the commits of a run are made.
pub const AUTHOR_NAME: &'static str = "Mr. Rebase";

/// The address under which the commits of a run are made.
pub const AUTHOR_EMAIL: &'static str = "rebase@me.com";

/// What the message of a run's commit begins with. The key of the lineage
/// follows.
pub const MESSAGE_PREFIX: &'static str = "Update ";

/// How far a run has come.
#[derive(Debug, Clone, Copy, PartialEq, Eq, Structural)]
pub enum Stage {
    /// Nothing has been done yet.
    Idle,
    /// The commit to branch from is known.
    BranchPointFound,
    /// The lineage branch starts at the branch point, whatever it held before.
    BranchCreated,
    /// The snapshot is committed on the lineage branch.
    ContentCommitted,
    /// The commit that replays the branch onto the trunk's tip is written.
    Reconciled,
    /// The trunk points at the reconciled commit. The run has succeeded.
    TrunkUpdated,
    /// The run has failed and the trunk is where it was.
    Failed(Error),
}

/// What the run asks its driver to do next.
#[derive(Debug, Clone, Copy, PartialEq, Eq, Structural)]
pub enum Request {
    /// Walk the history from the trunk's tip backwards, newest commit first,
    /// and report the commit times.
    WalkTrunk,
    /// Let the lineage branch start at this commit, dropping what the branch
    /// held before.
    ResetBranch(BranchPoint),
    /// Replace the content of the lineage branch with the snapshot, commit it,
    /// and report the units that the commit changes.
    Commit,
    /// Write the commit that follows the trunk's tip and holds every unit as
    /// it was decided, unless no unit takes the branch's version.
    Replay,
    /// Let the trunk point at the reconciled commit if the run advances it,
    /// and make sure that it points at its tip if not. The lineage branch has
    /// served and is given up. A clean working state at the trunk's tip is
    /// left behind.
    PublishTrunk { advance: bool },
    /// Nothing is left to do.
    Finish,
    /// Give up: restore a clean working state and leave the trunk alone.
    Abort,
}

/// How the last request went.
#[derive(Debug, Clone, PartialEq, Eq)]
pub enum Event {
    /// The commit times of the trunk's history, newest first.
    Walked(Vec<i64>),
    /// The request was carried out.
    Done,
    /// The snapshot is committed; these are the units that the commit
    /// changes, each as the branch point, the trunk's tip and the branch
    /// hold it.
    Committed(Vec<Unit>),
    /// The request could not be carried out.
    Failed,
}

/// An event as contracts speak of it.
pub enum EventView {
    Walked(Seq<i64>),
    Done,
    Committed(Seq<UnitView>),
    Failed,
}

impl View for Event {
    type V = EventView;

    open spec fn view(&self) -> EventView {
        match self {
            Event::Walked(times) => EventView::Walked(times@),
            Event::Done => EventView::Done,
            Event::Committed(units) => EventView::Committed(units@.map_values(|u: Unit| u@)),
            Event::Failed => EventView::Failed,
        }
    }
}

/// A run as contracts speak of it.
pub struct SynthesisView {
    /// The lineage, and with it the name of the branch.
    pub key: Seq<char>,
    /// When the snapshot takes effect, in seconds.
    pub effective: i64,
    pub stage: Stage,
    /// Where the branch starts. It means something from `BranchPointFound` on.
    pub branch_point: BranchPoint,
    /// One decision for each unit that the snapshot's commit changes. They
    /// mean something from `ContentCommitted` on.
    pub decisions: Seq<Resolution>,
}

/// One run for one snapshot.
#[derive(Debug)]
pub struct Synthesis {
    key: String,
    effective: i64,
    stage: Stage,
    branch_point: BranchPoint,
    decisions: Vec<Resolution>,
}

/// Where the branch starts for a snapshot that takes effect at `instance`.
pub open spec fn branch_point_of(walk: Seq<i64>, instance: i64) -> BranchPoint {
    if exists|i: int| is_branch_point(walk, instance, i) {
        BranchPoint::Commit((choose|i: int| is_branch_point(walk, instance, i)) as usize)
    } else {
        BranchPoint::Root
    }
}

/// The failure that a step stands for when it is the one that fails.
pub open spec fn failure_of(stage: Stage) -> Error {
    match stage {
        Stage::Idle => Error::NoBranchPoint,
        Stage::ContentCommitted => Error::ReconciliationFailed,
        _ => Error::StorageError,
    }
}

/// The run is over, one way or the other.
pub open spec fn is_final(stage: Stage) -> bool {
    stage is TrunkUpdated || stage is Failed
}

/// The state that follows `run` on `event`.
///
/// Each stage waits for one kind of event. That event takes the run one
/// stage further; any other one, `Failed` first of all, ends the run with the
/// failure of the step that was under way. A run that is over stays as it is.
pub open spec fn next(run: SynthesisView, event: EventView) -> SynthesisView {
    match (run.stage, event) {
        (Stage::Idle, EventView::Walked(walk)) => SynthesisView {
            stage: Stage::BranchPointFound,
            branch_point: branch_point_of(walk, run.effective),
            ..run
        },
        (Stage::BranchPointFound, EventView::Done) => SynthesisView {
            stage: Stage::BranchCreated,
            ..run
        },
        (Stage::BranchCreated, EventView::Committed(units)) => SynthesisView {
            stage: Stage::ContentCommitted,
            decisions: units.map_values(|u: UnitView| resolution(u)),
            ..run
        },
        (Stage::ContentCommitted, EventView::Done) => SynthesisView {
            stage: Stage::Reconciled,
            ..run
        },
        (Stage::Reconciled, EventView::Done) => SynthesisView { stage: Stage::TrunkUpdated, ..run },
        (Stage::TrunkUpdated, _) => run,
        (Stage::Failed(_), _) => run,
        (stage, _) => SynthesisView { stage: Stage::Failed(failure_of(stage)), ..run },
    }
}

/// What a run in this state asks for.
pub open spec fn request_of(run: SynthesisView) -> Request {
    match run.stage {
        Stage::Idle => Request::WalkTrunk,
        Stage::BranchPointFound => Request::ResetBranch(run.branch_point),
        Stage::BranchCreated => Request::Commit,
        Stage::ContentCommitted => Request::Replay,
        Stage::Reconciled => Request::PublishTrunk { advance: any_taken(run.decisions) },
        Stage::TrunkUpdated => Request::Finish,
        Stage::Failed(_) => Request::Abort,
    }
}

/// How many steps of a run lie behind a stage that is not a failure.
pub open spec fn progress(stage: Stage) -> int {
    match stage {
        Stage::Idle => 0,
        Stage::BranchPointFound => 1,
        Stage::BranchCreated => 2,
        Stage::ContentCommitted => 3,
        Stage::Reconciled => 4,
        Stage::TrunkUpdated => 5,
        Stage::Failed(_) => 0,
    }
}

impl View for Synthesis {
    type V = SynthesisView;

    closed spec fn view(&self) -> SynthesisView {
        SynthesisView {
            key: self.key@,
            effective: self.effective,
            stage: self.stage,
            branch_point: self.branch_point,
            decisions: self.decisions@,
        }
    }
}

impl Synthesis {
    /// A run for the snapshot of lineage `key` that takes effect at
    /// `effective`, with nothing done yet.
    pub fn new(key: String, effective: i64) -> (run: Synthesis)
        ensures
            run@.key == key@,
            run@.effective == effective,
            run@.stage == Stage::Idle,
            request_of(run@) == Request::WalkTrunk,
    {
        Synthesis {
            key,
            effective,
            stage: Stage::Idle,
            branch_point: BranchPoint::Root,
            decisions: Vec::new(),
        }
    }

    /// A run for a snapshot, with nothing done yet.
    ///
    /// `comments` holds the status comments of the snapshot's document. The
    /// run takes the time of the snapshot's latest status as the time at
    /// which the snapshot takes effect, and the snapshot's key as the name of
    /// its branch. There is no run for a snapshot that has no such time, and
    /// none for one without a key.
    pub fn begin(snap: &Snapshot, comments: &Vec<String>) -> (run: Result<Synthesis, Error>)
        ensures
            match run {
                Ok(run) => snap@.effective(comments@) == Ok::<int, Error>(run@.effective as int)
                    && snap@.key() == Some(run@.key) && run@.stage == Stage::Idle,
                Err(e) => match snap@.effective(comments@) {
                    Err(cause) => e == cause,
                    Ok(_) => e == Error::StorageError && snap@.key() is None,
                },
            },
    {
        let effective = match snap.date(comments) {
            Ok(seconds) => seconds,
            Err(e) => {
                return Err(e);
            },
        };
        match snap.key() {
            Some(key) => Ok(Synthesis::new(String::from_str(key), effective)),
            None => Err(Error::StorageError),
        }
    }

    /// The message of the commit that the run makes: the same for every run
    /// on the same lineage.
    pub fn commit_message(&self) -> (message: String)
        ensures
            message@ == MESSAGE_PREFIX@ + self@.key,
    {
        let mut message = String::from_str(MESSAGE_PREFIX);
        message.append(self.key.as_str());
        message
    }

    /// The lineage of the snapshot, which names its branch.
    pub fn key(&self) -> (key: &str)
        ensures
            key@ == self@.key,
    {
        self.key.as_str()
    }

    /// When the snapshot takes effect, in seconds. The commits of the run
    /// carry this time.
    pub fn effective(&self) -> (seconds: i64)
        ensures
            seconds == self@.effective,
    {
        self.effective
    }

    /// How far the run has come.
    pub fn stage(&self) -> (stage: Stage)
        ensures
            stage == self@.stage,
    {
        self.stage
    }

    /// Where the lineage branch starts.
    pub fn branch_point(&self) -> (at: BranchPoint)
        ensures
            at == self@.branch_point,
    {
        self.branch_point
    }

    /// The decision for each unit that the snapshot's commit changes, in the
    /// order in which the units were reported.
    pub fn decisions(&self) -> (decisions: &Vec<Resolution>)
        ensures
            decisions@ == self@.decisions,
    {
        &self.decisions
    }

    /// What the run is waiting for.
    pub fn pending(&self) -> (request: Request)
        ensures
            request == request_of(self@),
    {
        match self.stage {
            Stage::Idle => Request::WalkTrunk,
            Stage::BranchPointFound => Request::ResetBranch(self.branch_point),
            Stage::BranchCreated => Request::Commit,
            Stage::ContentCommitted => Request::Replay,
            Stage::Reconciled => Request::PublishTrunk { advance: advances(&self.decisions) },
            Stage::TrunkUpdated => Request::Finish,
            Stage::Failed(_) => Request::Abort,
        }
    }

    /// Take note of how the pending request went, and say what is to be done
    /// next.
    pub fn step(&mut self, event: Event) -> (request: Request)
        ensures
            final(self)@ == next(old(self)@, event@),
            request == request_of(final(self)@),
    {
        let ghost before = self@;
        match self.stage {
            Stage::TrunkUpdated => {},
            Stage::Failed(_) => {},
            Stage::Idle => {
                match event {
                    Event::Walked(walk) => {
                        let at = branch_point_or_root(&walk, self.effective);
                        proof {
                            lemma_branch_point_of(walk@, self.effective, at);
                        }
                        self.branch_point = at;
                        self.stage = Stage::BranchPointFound;
                    },
                    _ => {
                        self.stage = Stage::Failed(Error::NoBranchPoint);
                    },
                }
            },
            Stage::BranchPointFound => {
                match event {
                    Event::Done => {
                        self.stage = Stage::BranchCreated;
                    },
                    _ => {
                        self.stage = Stage::Failed(Error::StorageError);
                    },
                }
            },
            Stage::BranchCreated => {
                match event {
                    Event::Committed(units) => {
                        let decisions = reconcile(&units);
                        assert(decisions@ =~= units@.map_values(|u: Unit| u@).map_values(
                            |u: UnitView| resolution(u),
                        ));
                        self.decisions = decisions;
                        self.stage = Stage::ContentCommitted;
                    },
                    _ => {
                        self.stage = Stage::Failed(Error::StorageError);
                    },
                }
            },
            Stage::ContentCommitted => {
                match event {
                    Event::Done => {
                        self.stage = Stage::Reconciled;
                    },
                    _ => {
                        self.stage = Stage::Failed(Error::ReconciliationFailed);
                    },
                }
            },
            Stage::Reconciled => {
                match event {
                    Event::Done => {
                        self.stage = Stage::TrunkUpdated;
                    },
                    _ => {
                        self.stage = Stage::Failed(Error::StorageError);
                    },
                }
            },
        }
        assert(self@ == next(before, event@));
        self.pending()
    }
}

/// The branch point that the search finds is the one the contracts name.
proof fn lemma_branch_point_of(walk: Seq<i64>, instance: i64, at: BranchPoint)
    requires
        match at {
            BranchPoint::Commit(i) => is_branch_point(walk, instance, i as int),
            BranchPoint::Root => none_precedes(walk, instance),
        },
    ensures
        at == branch_point_of(walk, instance),
{
    match at {
        BranchPoint::Commit(i) => {
            let k = choose|k: int| is_branch_point(walk, instance, k);
            crate::history::lemma_branch_point_unique(walk, instance, i as int, k);
        },
        BranchPoint::Root => {
            assert forall|k: int| !is_branch_point(walk, instance, k) by {
                if 0 <= k < walk.len() {
                    assert(walk[k] >= instance);
                }
            }
        },
    }
}

/// A run that is over stays over: no event changes a run that has updated
/// the trunk or has failed.
pub proof fn lemma_final_stays(run: SynthesisView, event: EventView)
    requires
        is_final(run.stage),
    ensures
        next(run, event) == run,
{
}

/// Every step either takes the run exactly one stage further or ends it with
/// the failure of the step that was under way. A failure is never passed
/// over: a run that is told of one does not go on.
pub proof fn lemma_one_stage_or_failure(run: SynthesisView, event: EventView)
    requires
        !is_final(run.stage),
    ensures
        next(run, event).stage == Stage::Failed(failure_of(run.stage)) || progress(
            next(run, event).stage,
        ) == progress(run.stage) + 1,
        event is Failed ==> next(run, event).stage == Stage::Failed(failure_of(run.stage)),
        next(run, event).key == run.key,
        next(run, event).effective == run.effective,
{
}

/// The trunk is asked to move in one place only: after the branch has been
/// replayed. Until then, and after any failure, no request touches it.
pub proof fn lemma_trunk_moves_last(run: SynthesisView, event: EventView)
    ensures
        request_of(next(run, event)) is PublishTrunk ==> run.stage == Stage::ContentCommitted
            && event is Done,
        next(run, event).stage is Failed ==> request_of(next(run, event)) == Request::Abort,
{
}

/// In a run, too, the trunk wins: once the snapshot is committed, the run has
/// decided to keep the trunk's version of every unit that the trunk has
/// changed since the branch point, and to take the branch's version of every
/// unit that only the branch has changed.
pub proof fn lemma_run_lets_trunk_win(run: SynthesisView, units: Seq<UnitView>, i: int)
    requires
        run.stage == Stage::BranchCreated,
        0 <= i < units.len(),
    ensures
        ({
            let decided = next(run, EventView::Committed(units));
            &&& decided.stage == Stage::ContentCommitted
            &&& decided.decisions.len() == units.len()
            &&& units[i].trunk != units[i].base ==> decided.decisions[i] == Resolution::KeepTrunk
            &&& units[i].trunk == units[i].base && units[i].branch != units[i].base
                ==> decided.decisions[i] == Resolution::TakeBranch
        }),
{
}

/// A run as it stands when everything up to the replay has gone well: the
/// history was walked, the branch reset, the snapshot committed, and the
/// replay written.
pub open spec fn replayed(run: SynthesisView, walk: Seq<i64>, units: Seq<UnitView>) -> SynthesisView {
    next(
        next(
            next(next(run, EventView::Walked(walk)), EventView::Done),
            EventView::Committed(units),
        ),
        EventView::Done,
    )
}

/// Replaying a snapshot once more does not move the trunk.
///
/// `walk` is the history before the first replay, short enough for one more
/// commit to be counted. After the first replay it holds that commit, made at
/// the time at which the snapshot takes effect; it stands at `at`, before
/// every commit that is older. The second run finds the same commit to
/// branch from, one place further down the walk, or none as before. It
/// commits the same snapshot there, so that every unit is in the branch and
/// at the branch point what it was, and in the trunk what the first replay
/// made of it. Then no unit takes the branch's version, and the run asks for
/// the trunk to stay where it is.
pub proof fn lemma_replay_again_keeps_trunk(
    run: SynthesisView,
    walk: Seq<i64>,
    units: Seq<UnitView>,
    at: int,
)
    requires
        run.stage == Stage::Idle,
        walk.len() < usize::MAX,
        0 <= at <= walk.len(),
        forall|i: int| is_branch_point(walk, run.effective, i) ==> at <= i,
    ensures
        ({
            let first = replayed(run, walk, units);
            let again = replayed(
                run,
                walk.insert(at, run.effective),
                units.map_values(|u: UnitView| after_replay(u)),
            );
            &&& first.stage == Stage::Reconciled
            &&& again.stage == Stage::Reconciled
            &&& request_of(again) == Request::PublishTrunk { advance: false }
            &&& match first.branch_point {
                BranchPoint::Root => again.branch_point == BranchPoint::Root,
                BranchPoint::Commit(i) => i < walk.len() && again.branch_point
                    == BranchPoint::Commit((i + 1) as usize) && walk.insert(
                    at,
                    run.effective,
                )[i + 1] == walk[i as int],
            }
        }),
{
    let longer = walk.insert(at, run.effective);
    let again = replayed(run, longer, units.map_values(|u: UnitView| after_replay(u)));
    crate::reconcile::lemma_second_replay_stays(units);
    assert(again.decisions =~= units.map_values(|u: UnitView| resolution(after_replay(u))));
    if exists|i: int| is_branch_point(walk, run.effective, i) {
        let i = choose|i: int| is_branch_point(walk, run.effective, i);
        crate::history::lemma_branch_point_stable(walk, run.effective, i, at, run.effective);
        lemma_branch_point_of(longer, run.effective, BranchPoint::Commit((i + 1) as usize));
    } else {
        assert forall|k: int| !is_branch_point(longer, run.effective, k) by {
            if is_branch_point(longer, run.effective, k) {
                if k < at {
                    assert(longer[k] == walk[k]);
                    assert forall|j: int| 0 <= j < k implies walk[j] >= run.effective by {
                        assert(longer[j] == walk[j]);
                    }
                    assert(is_branch_point(walk, run.effective, k));
                } else {
                    assert(longer[k] == walk[k - 1]);
                    assert forall|j: int| 0 <= j < k - 1 implies walk[j] >= run.effective by {
                        if j < at {
                            assert(longer[j] == walk[j]);
                        } else {
                            assert(longer[j + 1] == walk[j]);
                        }
                    }
                    assert(is_branch_point(walk, run.effective, k - 1));
                }
            }
        }
    }
}

} // verus!
