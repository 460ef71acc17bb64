//! The decisions of one run of the watcher. The run alternates work that
//! the program does (fetching pages, writing files, posting messages) with
//! decisions; `run_step` takes the state and what the last piece of work
//! found, and tells the next state and what to do next.

use vstd::prelude::*;

use crate::maimai::schema::latest::PlayTime;

verus! {

/// How updating the rating targets went.
#[derive(Clone, Copy, PartialEq, Eq, Structural, Debug)]
pub enum TargetUpdate {
    /// It failed (the error is reported, and the run goes on).
    Failed,
    /// It went through without giving a new list.
    Unchanged,
    /// It gave a new list.
    Updated,
}

/// Where a run stands.
#[derive(Clone, Copy, PartialEq, Eq, Structural, Debug)]
pub enum RunState {
    /// The record index is being read.
    AwaitIndex,
    /// The new records are being fetched; the latest play is at this time.
    AwaitRecords(PlayTime),
    /// The rating targets are being updated after this many new records.
    AwaitTargets(usize),
    /// The map from idx to icon is being updated after this many new records.
    AwaitIdx(usize),
    /// The estimator is running after this many new records.
    AwaitEstimator(usize),
    /// The run ended; whether anything was new.
    Finished(bool),
    /// The run failed.
    Failed,
}

/// What the last piece of work found.
#[derive(Clone, Copy, PartialEq, Eq, Structural, Debug)]
pub enum RunEvent {
    /// The record index was read; the time of its first (latest) play.
    IndexRead(Option<PlayTime>),
    /// The records were fetched; this many were new.
    RecordsInserted(usize),
    /// The rating targets were tried.
    TargetsTried(TargetUpdate),
    /// The map from idx to icon was updated.
    IdxUpdated,
    /// The estimator ran; it held `before` events at the start of the run
    /// and `after` events now.
    EstimatorRan(usize, usize),
}

/// What to do next.
#[derive(Clone, Copy, PartialEq, Eq, Structural, Debug)]
pub enum RunAction {
    /// Fail the run: "There is no play yet."
    FailNoPlay,
    /// Fetch the new records of the index.
    FetchRecords,
    /// End the run: nothing was new.
    StopNoUpdate,
    /// Update the rating targets for the play at this time.
    UpdateTargets(PlayTime),
    /// Post "Rating target updated", then update the map from idx to icon.
    NotifyTargetsThenUpdateIdx,
    /// Post "Rating target updated" if it was, then run the estimator.
    RunEstimator(bool),
    /// Post "Disambiguation list updated", then run the estimator.
    NotifyIdxThenRunEstimator,
    /// Post a message for each new record and one for each event of the
    /// estimator from `from` to `to`, then end the run: something was new.
    Report { records: usize, from: usize, to: usize },
    /// The event does not belong to this state: nothing to do.
    Ignore,
}

/// The next state and action of a run.
pub open spec fn run_step_spec(state: RunState, event: RunEvent) -> (RunState, RunAction) {
    match (state, event) {
        (RunState::AwaitIndex, RunEvent::IndexRead(None)) => (RunState::Failed, RunAction::FailNoPlay),
        (RunState::AwaitIndex, RunEvent::IndexRead(Some(t))) => (RunState::AwaitRecords(t), RunAction::FetchRecords),
        (RunState::AwaitRecords(t), RunEvent::RecordsInserted(n)) => if n == 0 {
            (RunState::Finished(false), RunAction::StopNoUpdate)
        } else {
            (RunState::AwaitTargets(n), RunAction::UpdateTargets(t))
        },
        (RunState::AwaitTargets(n), RunEvent::TargetsTried(u)) => match u {
            TargetUpdate::Updated => (RunState::AwaitIdx(n), RunAction::NotifyTargetsThenUpdateIdx),
            TargetUpdate::Unchanged => (RunState::AwaitEstimator(n), RunAction::RunEstimator(true)),
            TargetUpdate::Failed => (RunState::AwaitEstimator(n), RunAction::RunEstimator(false)),
        },
        (RunState::AwaitIdx(n), RunEvent::IdxUpdated) => (RunState::AwaitEstimator(n), RunAction::NotifyIdxThenRunEstimator),
        (RunState::AwaitEstimator(n), RunEvent::EstimatorRan(before, after)) => (
            RunState::Finished(true),
            RunAction::Report { records: n, from: before, to: if after < before { before } else { after } },
        ),
        _ => (state, RunAction::Ignore),
    }
}

/// Decides the next step of a run: a run with no play yet fails; one with
/// no new record stops; the rating targets are announced only when their
/// update went through, and the idx map is updated only after a new list;
/// at the end the new records and the estimator's new events are reported.
pub fn run_step(state: RunState, event: RunEvent) -> (r: (RunState, RunAction))
    ensures
        r == run_step_spec(state, event),
{
    match (state, event) {
        (RunState::AwaitIndex, RunEvent::IndexRead(None)) => (RunState::Failed, RunAction::FailNoPlay),
        (RunState::AwaitIndex, RunEvent::IndexRead(Some(t))) => (RunState::AwaitRecords(t), RunAction::FetchRecords),
        (RunState::AwaitRecords(t), RunEvent::RecordsInserted(n)) => if n == 0 {
            (RunState::Finished(false), RunAction::StopNoUpdate)
        } else {
            (RunState::AwaitTargets(n), RunAction::UpdateTargets(t))
        },
        (RunState::AwaitTargets(n), RunEvent::TargetsTried(u)) => match u {
            TargetUpdate::Updated => (RunState::AwaitIdx(n), RunAction::NotifyTargetsThenUpdateIdx),
            TargetUpdate::Unchanged => (RunState::AwaitEstimator(n), RunAction::RunEstimator(true)),
            TargetUpdate::Failed => (RunState::AwaitEstimator(n), RunAction::RunEstimator(false)),
        },
        (RunState::AwaitIdx(n), RunEvent::IdxUpdated) => (RunState::AwaitEstimator(n), RunAction::NotifyIdxThenRunEstimator),
        (RunState::AwaitEstimator(n), RunEvent::EstimatorRan(before, after)) => (
            RunState::Finished(true),
            RunAction::Report { records: n, from: before, to: if after < before { before } else { after } },
        ),
        _ => (state, RunAction::Ignore),
    }
}

/// A run that got an index, then new records, then went through every
/// piece of work ends having reported exactly the new records, and it
/// announces the rating targets exactly when their update went through.
pub proof fn lemma_run_reports_new_records(t: PlayTime, n: usize, u: TargetUpdate, before: usize, after: usize)
    requires
        n > 0,
        before <= after,
    ensures
        ({
            let (s1, a1) = run_step_spec(RunState::AwaitIndex, RunEvent::IndexRead(Some(t)));
            let (s2, a2) = run_step_spec(s1, RunEvent::RecordsInserted(n));
            let (s3, a3) = run_step_spec(s2, RunEvent::TargetsTried(u));
            let s4 = if u == TargetUpdate::Updated {
                run_step_spec(s3, RunEvent::IdxUpdated).0
            } else {
                s3
            };
            let (s5, a5) = run_step_spec(s4, RunEvent::EstimatorRan(before, after));
            &&& a1 == RunAction::FetchRecords
            &&& a2 == RunAction::UpdateTargets(t)
            &&& (a3 == RunAction::NotifyTargetsThenUpdateIdx || a3 == RunAction::RunEstimator(
                u == TargetUpdate::Unchanged,
            ))
            &&& (a3 == RunAction::NotifyTargetsThenUpdateIdx <==> u == TargetUpdate::Updated)
            &&& s5 == RunState::Finished(true)
            &&& a5 == RunAction::Report { records: n, from: before, to: after }
        }),
{
}

/// A run whose index has no play fails, and one that finds no new record
/// stops at once, reporting no update.
pub proof fn lemma_run_stops_early(t: PlayTime)
    ensures
        run_step_spec(RunState::AwaitIndex, RunEvent::IndexRead(None)) == (RunState::Failed, RunAction::FailNoPlay),
        run_step_spec(run_step_spec(RunState::AwaitIndex, RunEvent::IndexRead(Some(t))).0, RunEvent::RecordsInserted(0))
            == (RunState::Finished(false), RunAction::StopNoUpdate),
{
}

} // verus!
