use maimai_scraping::maimai::schema::latest::PlayTime;
use maimai_scraping::watcher::run::{run_step, RunAction, RunEvent, RunState, TargetUpdate};

#[test]
fn run_without_play_fails_and_without_records_stops() {
    assert_eq!(run_step(RunState::AwaitIndex, RunEvent::IndexRead(None)), (RunState::Failed, RunAction::FailNoPlay));
    let t = PlayTime::from_naive_seconds(1694656500);
    let (s, a) = run_step(RunState::AwaitIndex, RunEvent::IndexRead(Some(t)));
    assert_eq!(a, RunAction::FetchRecords);
    assert_eq!(run_step(s, RunEvent::RecordsInserted(0)), (RunState::Finished(false), RunAction::StopNoUpdate));
}

#[test]
fn run_reports_new_records_and_events() {
    let t = PlayTime::from_naive_seconds(1694656500);
    let (s, _) = run_step(RunState::AwaitIndex, RunEvent::IndexRead(Some(t)));
    let (s, a) = run_step(s, RunEvent::RecordsInserted(2));
    assert_eq!(a, RunAction::UpdateTargets(t));
    // A new list: announce it, then update the idx map.
    let (s2, a) = run_step(s, RunEvent::TargetsTried(TargetUpdate::Updated));
    assert_eq!(a, RunAction::NotifyTargetsThenUpdateIdx);
    let (s2, a) = run_step(s2, RunEvent::IdxUpdated);
    assert_eq!(a, RunAction::NotifyIdxThenRunEstimator);
    assert_eq!(
        run_step(s2, RunEvent::EstimatorRan(4, 6)),
        (RunState::Finished(true), RunAction::Report { records: 2, from: 4, to: 6 })
    );
    // A failed update is not announced.
    let (s3, a) = run_step(s, RunEvent::TargetsTried(TargetUpdate::Failed));
    assert_eq!(a, RunAction::RunEstimator(false));
    assert_eq!(run_step(s3, RunEvent::IdxUpdated), (s3, RunAction::Ignore));
    assert_eq!(run_step(s, RunEvent::TargetsTried(TargetUpdate::Unchanged)).1, RunAction::RunEstimator(true));
}
