use vstd::prelude::*;

use crate::maimai::schema::latest::PlayTime;

verus! {

/// What to do about the rating target list after a play.
#[derive(Clone, Copy, PartialEq, Eq, Structural, Debug)]
pub enum TargetUpdate {
    /// The saved list is as new as the last play.
    UpToDate,
    /// Fetch the list and save it under this time.
    Store(PlayTime),
    /// Fetch the list and save it under the present time.
    StoreNow,
}

/// The saved rating target list is newer than the last play: the play
/// records and the rating target lists disagree.
#[derive(Clone, Copy, PartialEq, Eq, Structural, Debug)]
pub struct InconsistentTargets;

/// The start of the minute of the time `t`, in seconds.
pub open spec fn minute_start(t: int) -> int {
    t - t % 60
}

/// What to do about the rating target list: fetch it when the last saved
/// list is older than the minute of the last play (or there is none), and
/// always when `force` is set; nothing when it is as new; an error when it
/// is newer.
pub open spec fn target_update_plan(last_saved: Option<PlayTime>, last_played: PlayTime, force: bool) -> Result<
    TargetUpdate,
    InconsistentTargets,
> {
    let minute = minute_start(last_played.seconds() as int);
    if force {
        Ok(TargetUpdate::StoreNow)
    } else {
        match last_saved {
            None => Ok(TargetUpdate::Store(PlayTime::from_seconds_spec(minute))),
            Some(s) => if (s.seconds() as int) < minute {
                Ok(TargetUpdate::Store(PlayTime::from_seconds_spec(minute)))
            } else if s.seconds() as int == minute {
                Ok(TargetUpdate::UpToDate)
            } else {
                Err(InconsistentTargets)
            },
        }
    }
}

/// Decides whether to fetch the rating target list. The time of the last
/// play is one that a calendar date can hold, far from the ends of `i64`.
pub fn plan_target_update(last_saved: Option<PlayTime>, last_played: PlayTime, force: bool) -> (r: Result<
    TargetUpdate,
    InconsistentTargets,
>)
    requires
        last_played.seconds() >= i64::MIN + 60,
    ensures
        r == target_update_plan(last_saved, last_played, force),
{
    let t = last_played.get();
    let rem = t % 60;
    let floor = if rem < 0 { t - rem - 60 } else { t - rem };
    assert(floor == minute_start(t as int));
    let minute = PlayTime::from_naive_seconds(floor);
    if force {
        return Ok(TargetUpdate::StoreNow);
    }
    match last_saved {
        None => Ok(TargetUpdate::Store(minute)),
        Some(s) => {
            if s.get() < floor {
                Ok(TargetUpdate::Store(minute))
            } else if s.get() == floor {
                Ok(TargetUpdate::UpToDate)
            } else {
                Err(InconsistentTargets)
            }
        },
    }
}

/// Once a fetched list is saved under the time that the plan names, the
/// plan for the same last play is to do nothing.
pub proof fn lemma_target_update_settles(last_saved: Option<PlayTime>, last_played: PlayTime)
    requires
        last_played.seconds() >= i64::MIN + 60,
    ensures
        target_update_plan(last_saved, last_played, false) matches Ok(TargetUpdate::Store(m)) ==> target_update_plan(
            Some(m),
            last_played,
            false,
        ) == Ok::<TargetUpdate, InconsistentTargets>(TargetUpdate::UpToDate),
{
    let minute = minute_start(last_played.seconds() as int);
    PlayTime::lemma_from_seconds(minute);
}

} // verus!
