use std::io::Cursor;
use std::io::Write;

use librelaws::error::Error;
use librelaws::history::BranchPoint;
use librelaws::reconcile::{Resolution, Unit};
use librelaws::snapshot::Snapshot;
use librelaws::synthesis::{
    Event, Request, Stage, Synthesis, AUTHOR_EMAIL, AUTHOR_NAME, MESSAGE_PREFIX,
};
use zip::write::FileOptions;
use zip::ZipWriter;

fn version(text: &str) -> Option<Vec<u8>> {
    Some(text.as_bytes().to_vec())
}

fn unit(base: Option<&str>, trunk: Option<&str>, branch: Option<&str>) -> Unit {
    Unit {
        base: base.and_then(version),
        trunk: trunk.and_then(version),
        branch: branch.and_then(version),
    }
}

fn run() -> Synthesis {
    Synthesis::new("bgb".to_string(), 350)
}

/// The events of a run in which everything goes well.
fn events(walk: Vec<i64>, units: Vec<Unit>) -> Vec<Event> {
    vec![Event::Walked(walk), Event::Done, Event::Committed(units), Event::Done, Event::Done]
}

/// A run after the first `steps` events of one in which everything goes well.
fn run_after(steps: usize) -> Synthesis {
    let mut run = run();
    let units = vec![unit(Some("a"), Some("a"), Some("b"))];
    for event in events(vec![500, 400, 300], units).into_iter().take(steps) {
        run.step(event);
    }
    run
}

fn payload(name: &str, content: &str) -> Vec<u8> {
    let mut writer = ZipWriter::new(Cursor::new(Vec::new()));
    writer.start_file(name, FileOptions::default()).unwrap();
    writer.write_all(content.as_bytes()).unwrap();
    writer.finish().unwrap().into_inner()
}

#[test]
fn a_run_starts_idle_and_asks_for_the_walk() {
    let run = run();
    assert_eq!(run.stage(), Stage::Idle);
    assert_eq!(run.pending(), Request::WalkTrunk);
    assert_eq!(run.key(), "bgb");
    assert_eq!(run.effective(), 350);
    assert!(run.decisions().is_empty());
}

#[test]
fn a_run_goes_through_its_stages() {
    let mut run = run();
    assert_eq!(run.step(Event::Walked(vec![500, 400, 300, 200])), Request::ResetBranch(BranchPoint::Commit(2)));
    assert_eq!(run.stage(), Stage::BranchPointFound);
    assert_eq!(run.branch_point(), BranchPoint::Commit(2));
    assert_eq!(run.step(Event::Done), Request::Commit);
    assert_eq!(run.stage(), Stage::BranchCreated);
    let units = vec![unit(Some("a"), Some("a"), Some("b")), unit(Some("c"), Some("d"), Some("e"))];
    assert_eq!(run.step(Event::Committed(units)), Request::Replay);
    assert_eq!(run.stage(), Stage::ContentCommitted);
    assert_eq!(run.decisions(), &vec![Resolution::TakeBranch, Resolution::KeepTrunk]);
    assert_eq!(run.step(Event::Done), Request::PublishTrunk { advance: true });
    assert_eq!(run.stage(), Stage::Reconciled);
    assert_eq!(run.step(Event::Done), Request::Finish);
    assert_eq!(run.stage(), Stage::TrunkUpdated);
    assert_eq!(run.key(), "bgb");
    assert_eq!(run.effective(), 350);
}

#[test]
fn a_run_without_older_commit_branches_from_the_root() {
    let mut run = run();
    assert_eq!(run.step(Event::Walked(Vec::new())), Request::ResetBranch(BranchPoint::Root));
    assert_eq!(run.stage(), Stage::BranchPointFound);
    let mut run = Synthesis::new("bgb".to_string(), 350);
    assert_eq!(run.step(Event::Walked(vec![500, 350])), Request::ResetBranch(BranchPoint::Root));
}

#[test]
fn a_run_that_changes_nothing_does_not_advance_the_trunk() {
    let mut run = run();
    let units = vec![unit(Some("a"), Some("b"), Some("c")), unit(Some("a"), Some("a"), Some("a"))];
    let mut last = Request::WalkTrunk;
    for event in events(vec![300], units).into_iter().take(4) {
        last = run.step(event);
    }
    assert_eq!(last, Request::PublishTrunk { advance: false });
    let mut run = Synthesis::new("bgb".to_string(), 350);
    for event in events(vec![300], Vec::new()).into_iter().take(4) {
        last = run.step(event);
    }
    assert_eq!(last, Request::PublishTrunk { advance: false });
}

#[test]
fn a_failure_ends_the_run_with_the_failure_of_its_step() {
    let reasons = [
        Error::NoBranchPoint,
        Error::StorageError,
        Error::StorageError,
        Error::ReconciliationFailed,
        Error::StorageError,
    ];
    for (steps, reason) in reasons.iter().enumerate() {
        let mut run = run_after(steps);
        assert_eq!(run.step(Event::Failed), Request::Abort);
        assert_eq!(run.stage(), Stage::Failed(*reason));
        assert_eq!(run.pending(), Request::Abort);
    }
}

#[test]
fn a_run_that_is_over_stays_as_it_is() {
    let others = || {
        vec![
            Event::Walked(vec![1, 2]),
            Event::Done,
            Event::Committed(vec![unit(None, None, Some("x"))]),
            Event::Failed,
        ]
    };
    for event in others() {
        let mut run = run_after(5);
        assert_eq!(run.step(event), Request::Finish);
        assert_eq!(run.stage(), Stage::TrunkUpdated);
    }
    for event in others() {
        let mut run = run_after(2);
        run.step(Event::Failed);
        assert_eq!(run.step(event), Request::Abort);
        assert_eq!(run.stage(), Stage::Failed(Error::StorageError));
        assert_eq!(run.branch_point(), BranchPoint::Commit(2));
    }
}

#[test]
fn an_event_out_of_turn_ends_the_run() {
    let mut run = run_after(0);
    assert_eq!(run.step(Event::Done), Request::Abort);
    assert_eq!(run.stage(), Stage::Failed(Error::NoBranchPoint));
    let mut run = run_after(1);
    assert_eq!(run.step(Event::Walked(vec![1])), Request::Abort);
    assert_eq!(run.stage(), Stage::Failed(Error::StorageError));
    let mut run = run_after(2);
    assert_eq!(run.step(Event::Done), Request::Abort);
    assert_eq!(run.stage(), Stage::Failed(Error::StorageError));
    let mut run = run_after(3);
    assert_eq!(run.step(Event::Committed(Vec::new())), Request::Abort);
    assert_eq!(run.stage(), Stage::Failed(Error::ReconciliationFailed));
    let mut run = run_after(4);
    assert_eq!(run.step(Event::Walked(Vec::new())), Request::Abort);
    assert_eq!(run.stage(), Stage::Failed(Error::StorageError));
}

#[test]
fn the_trunk_is_asked_to_move_after_the_replay_only() {
    for steps in 0..=5 {
        let run = run_after(steps);
        let asks = matches!(run.pending(), Request::PublishTrunk { .. });
        assert_eq!(asks, steps == 4);
    }
}

#[test]
fn replaying_a_snapshot_again_leaves_the_trunk() {
    let walk = vec![500, 400, 300, 200];
    let units = vec![
        unit(Some("1954"), Some("1954"), Some("1966")),
        unit(Some("a"), Some("2017"), Some("1966")),
        unit(None, None, Some("new")),
    ];
    let mut first = run();
    let mut asked = Request::WalkTrunk;
    for event in events(walk.clone(), units.clone()).into_iter().take(4) {
        asked = first.step(event);
    }
    assert_eq!(asked, Request::PublishTrunk { advance: true });
    assert_eq!(first.branch_point(), BranchPoint::Commit(2));

    let mut walk_after = walk.clone();
    walk_after.insert(0, first.effective());
    let units_after: Vec<Unit> = units
        .iter()
        .zip(first.decisions())
        .map(|(unit, decision)| Unit {
            base: unit.base.clone(),
            trunk: match decision {
                Resolution::KeepTrunk => unit.trunk.clone(),
                Resolution::TakeBranch => unit.branch.clone(),
            },
            branch: unit.branch.clone(),
        })
        .collect();
    let mut again = run();
    for event in events(walk_after.clone(), units_after).into_iter().take(4) {
        asked = again.step(event);
    }
    assert_eq!(asked, Request::PublishTrunk { advance: false });
    assert_eq!(again.branch_point(), BranchPoint::Commit(3));
    assert_eq!(walk_after[3], walk[2]);
    assert_eq!(again.commit_message(), first.commit_message());
    assert_eq!(again.effective(), first.effective());
}

#[test]
fn two_runs_on_the_same_events_agree() {
    let units = vec![unit(Some("a"), Some("a"), Some("b")), unit(None, Some("x"), Some("b"))];
    let mut one = run();
    let mut other = run();
    for (first, second) in
        events(vec![9, 8, 7], units.clone()).into_iter().zip(events(vec![9, 8, 7], units))
    {
        assert_eq!(one.step(first), other.step(second));
        assert_eq!(one.stage(), other.stage());
        assert_eq!(one.branch_point(), other.branch_point());
        assert_eq!(one.decisions(), other.decisions());
    }
}

#[test]
fn commits_are_made_under_one_name_with_one_message() {
    assert_eq!(AUTHOR_NAME, "Mr. Rebase");
    assert_eq!(AUTHOR_EMAIL, "rebase@me.com");
    assert_eq!(MESSAGE_PREFIX, "Update ");
    assert_eq!(run().commit_message(), "Update bgb");
    assert_eq!(Synthesis::new(String::new(), 0).commit_message(), "Update ");
    assert_eq!(run_after(3).commit_message(), "Update bgb");
}

#[test]
fn a_run_begins_with_the_date_and_key_of_its_snapshot() {
    let mut snap = Snapshot::new("/tmp/scratch", "begdv_1");
    snap.add_zipped_snapshot(&payload("begdv_1.xml", "<dokumente/>"), None);
    let comments = vec!["Zuletzt geändert durch Art. 1 V v. 27.4.2017 I 980".to_string()];
    let run = Synthesis::begin(&snap, &comments).ok().unwrap();
    assert_eq!(run.key(), "begdv_1");
    assert_eq!(run.effective(), 1_493_251_200);
    assert_eq!(run.stage(), Stage::Idle);
    assert_eq!(run.pending(), Request::WalkTrunk);
}

#[test]
fn there_is_no_run_for_a_snapshot_without_date_or_key() {
    let comments = vec!["G v. 27.4.2017 I 980".to_string()];
    let unsealed = Snapshot::new("/tmp/scratch", "bgb");
    assert_eq!(Synthesis::begin(&unsealed, &comments).err(), Some(Error::StorageError));
    let mut broken = Snapshot::new("/tmp/scratch", "bgb");
    broken.add_zipped_snapshot(b"no archive", None);
    assert_eq!(Synthesis::begin(&broken, &comments).err(), Some(Error::MalformedPayload));
    let mut silent = Snapshot::new("/tmp/scratch", "bgb");
    silent.add_zipped_snapshot(&payload("bgb.xml", "<a/>"), None);
    assert_eq!(Synthesis::begin(&silent, &Vec::new()).err(), Some(Error::NoStatusFound));
    let mut nameless = Snapshot::new("/tmp/scratch", "..");
    nameless.add_zipped_snapshot(&payload("bgb.xml", "<a/>"), None);
    assert_eq!(Synthesis::begin(&nameless, &comments).err(), Some(Error::StorageError));
}
