use vstd::prelude::*;

verus! {

pub const NANOS_PER_SEC: u32 = 1_000_000_000;

/// A span of time, as `std::time::Duration` holds it: whole seconds and the
/// nanoseconds below one second.
#[derive(Clone, Copy, PartialEq, Eq, Structural, Debug)]
pub struct WaitDuration {
    secs: u64,
    nanos: u32,
}

impl WaitDuration {
    #[verifier::type_invariant]
    spec fn wf(self) -> bool {
        self.nanos < NANOS_PER_SEC
    }

    pub closed spec fn secs_spec(self) -> u64 {
        self.secs
    }

    pub closed spec fn nanos_spec(self) -> u32 {
        self.nanos
    }

    /// The span in nanoseconds.
    pub open spec fn total(self) -> int {
        self.secs_spec() * 1_000_000_000 + self.nanos_spec()
    }

    /// The span of `secs` seconds and `nanos` nanoseconds, if `nanos` is
    /// below one second.
    pub fn new(secs: u64, nanos: u32) -> (r: Option<WaitDuration>)
        ensures
            nanos < NANOS_PER_SEC ==> (r matches Some(d) && d.secs_spec() == secs
                && d.nanos_spec() == nanos),
            nanos >= NANOS_PER_SEC ==> r is None,
    {
        if nanos < NANOS_PER_SEC {
            Some(WaitDuration { secs, nanos })
        } else {
            None
        }
    }

    /// `Duration::MAX`.
    pub fn max() -> (r: WaitDuration)
        ensures
            r.secs_spec() == u64::MAX,
            r.nanos_spec() == NANOS_PER_SEC - 1,
    {
        WaitDuration { secs: u64::MAX, nanos: NANOS_PER_SEC - 1 }
    }

    /// `Duration::from_millis`.
    pub fn from_millis(ms: u64) -> (r: WaitDuration)
        ensures
            r.total() == ms * 1_000_000,
    {
        WaitDuration { secs: ms / 1000, nanos: ((ms % 1000) * 1_000_000) as u32 }
    }

    pub fn secs(self) -> (r: u64)
        ensures
            r == self.secs_spec(),
    {
        self.secs
    }

    pub fn nanos(self) -> (r: u32)
        ensures
            r == self.nanos_spec(),
            r < NANOS_PER_SEC,
    {
        proof {
            use_type_invariant(&self);
        }
        self.nanos
    }

    /// At least as long as `other`.
    pub fn ge(self, other: WaitDuration) -> (r: bool)
        ensures
            r == (self.total() >= other.total()),
    {
        proof {
            use_type_invariant(&self);
            use_type_invariant(&other);
        }
        self.secs > other.secs || (self.secs == other.secs && self.nanos >= other.nanos)
    }

    /// The shorter of the two.
    pub fn min(self, other: WaitDuration) -> (r: WaitDuration)
        ensures
            r == (if self.total() <= other.total() { self } else { other }),
    {
        if other.ge(self) {
            self
        } else {
            other
        }
    }

    /// `self - other`, unless `other` is longer (`Duration::checked_sub`).
    pub fn checked_sub(self, other: WaitDuration) -> (r: Option<WaitDuration>)
        ensures
            match r {
                Some(d) => self.total() >= other.total() && d.total() == self.total()
                    - other.total(),
                None => self.total() < other.total(),
            },
    {
        proof {
            use_type_invariant(&self);
            use_type_invariant(&other);
        }
        if !self.ge(other) {
            return None;
        }
        if self.nanos >= other.nanos {
            Some(WaitDuration { secs: self.secs - other.secs, nanos: self.nanos - other.nanos })
        } else {
            Some(
                WaitDuration {
                    secs: self.secs - other.secs - 1,
                    nanos: NANOS_PER_SEC - other.nanos + self.nanos,
                },
            )
        }
    }
}

/// When the watcher gives up: after a number of runs, or after a span without
/// new records.
#[derive(Clone, Copy, Debug)]
pub struct TimeoutConfig {
    max_count: usize,
    max_duration: WaitDuration,
}

impl TimeoutConfig {
    pub closed spec fn max_count_spec(self) -> usize {
        self.max_count
    }

    pub closed spec fn max_duration_spec(self) -> WaitDuration {
        self.max_duration
    }

    /// One run only.
    pub fn single() -> (r: TimeoutConfig)
        ensures
            r.max_count_spec() == 1,
            r.max_duration_spec().secs_spec() == u64::MAX,
            r.max_duration_spec().nanos_spec() == NANOS_PER_SEC - 1,
    {
        TimeoutConfig { max_count: 1, max_duration: WaitDuration::max() }
    }

    /// Until stopped.
    pub fn indefinite() -> (r: TimeoutConfig)
        ensures
            r.max_count_spec() == usize::MAX,
            r.max_duration_spec().secs_spec() == u64::MAX,
            r.max_duration_spec().nanos_spec() == NANOS_PER_SEC - 1,
    {
        TimeoutConfig { max_count: usize::MAX, max_duration: WaitDuration::max() }
    }

    /// Until no record has come for `max_duration`.
    pub fn with_max_duration(max_duration: WaitDuration) -> (r: TimeoutConfig)
        ensures
            r.max_count_spec() == usize::MAX,
            r.max_duration_spec() == max_duration,
    {
        TimeoutConfig { max_count: usize::MAX, max_duration }
    }

    pub fn max_count(&self) -> (r: usize)
        ensures
            r == self.max_count_spec(),
    {
        self.max_count
    }

    pub fn max_duration(&self) -> (r: WaitDuration)
        ensures
            r == self.max_duration_spec(),
    {
        self.max_duration
    }
}

/// Whether to give the standard course back to another account when the
/// watcher stops.
#[derive(Clone, Debug)]
pub struct ForcePaidConfig {
    /// The account to give it back to.
    pub after_use: Option<String>,
}

/// How a run of the watcher ended.
#[derive(Clone, Copy, PartialEq, Eq, Structural, Debug)]
pub enum RunOutcome {
    Failed,
    Updated,
    NoUpdates,
}

/// What to post after a run.
#[derive(Clone, Copy, PartialEq, Eq, Structural, Debug)]
pub enum RunReport {
    /// The error of the run.
    Error,
    /// "Already up to date."
    AlreadyUpToDate,
}

/// What the watcher does after a run.
#[derive(Clone, Copy, PartialEq, Eq, Structural, Debug)]
pub struct AfterRun {
    /// New records came: the time without updates starts again.
    pub reset_update_timer: bool,
    pub report: Option<RunReport>,
    /// Stop without waiting (a single run was asked for).
    pub stop: bool,
}

/// Decides what follows a run.
pub fn after_run(config: &TimeoutConfig, report_no_updates: bool, outcome: RunOutcome) -> (r:
    AfterRun)
    ensures
        r.reset_update_timer == (outcome == RunOutcome::Updated),
        r.report == match outcome {
            RunOutcome::Failed => Some(RunReport::Error),
            RunOutcome::Updated => None,
            RunOutcome::NoUpdates => if report_no_updates {
                Some(RunReport::AlreadyUpToDate)
            } else {
                None
            },
        },
        r.stop == (config.max_count_spec() == 1),
{
    let report = match outcome {
        RunOutcome::Failed => Some(RunReport::Error),
        RunOutcome::Updated => None,
        RunOutcome::NoUpdates => if report_no_updates {
            Some(RunReport::AlreadyUpToDate)
        } else {
            None
        },
    };
    AfterRun {
        reset_update_timer: match outcome {
            RunOutcome::Updated => true,
            _ => false,
        },
        report,
        stop: config.max_count == 1,
    }
}

/// What the watcher does after the wait between runs.
#[derive(Clone, Copy, PartialEq, Eq, Structural, Debug)]
pub enum WaitVerdict {
    /// Run again.
    Continue,
    /// The number of runs asked for is done.
    CountReached,
    /// No record has come for the longest span allowed: post that the
    /// watcher stops, and stop.
    NoUpdatesForAWhile,
}

/// Counts a finished round and decides whether to go on. `count` rounds
/// were finished before; `since_update` is the time since the last new
/// record (or the start). The watcher only goes on while fewer rounds than
/// the limit are done, so it never runs more often than the limit.
pub fn after_wait(config: &TimeoutConfig, count: usize, since_update: WaitDuration) -> (r: (
    usize,
    WaitVerdict,
))
    requires
        count < config.max_count_spec(),
    ensures
        r.0 == count + 1,
        r.1 == if r.0 >= config.max_count_spec() {
            WaitVerdict::CountReached
        } else if since_update.total() >= config.max_duration_spec().total() {
            WaitVerdict::NoUpdatesForAWhile
        } else {
            WaitVerdict::Continue
        },
        r.1 == WaitVerdict::Continue ==> r.0 < config.max_count_spec(),
{
    let count = count + 1;
    if count >= config.max_count {
        (count, WaitVerdict::CountReached)
    } else if since_update.ge(config.max_duration) {
        (count, WaitVerdict::NoUpdatesForAWhile)
    } else {
        (count, WaitVerdict::Continue)
    }
}

/// One step of the wait between runs, which sleeps in short chunks so that
/// a stop request is seen soon: sleep the shorter of what remains and the
/// chunk; then `remaining - chunk` remains, or the wait is over when the
/// chunk is longer.
pub fn wait_step(remaining: WaitDuration, chunk: WaitDuration) -> (r: (
    WaitDuration,
    Option<WaitDuration>,
))
    ensures
        r.0 == remaining.min_spec(chunk),
        match r.1 {
            Some(d) => remaining.total() >= chunk.total() && d.total() == remaining.total()
                - chunk.total(),
            None => remaining.total() < chunk.total(),
        },
{
    (remaining.min(chunk), remaining.checked_sub(chunk))
}

impl WaitDuration {
    pub open spec fn min_spec(self, other: WaitDuration) -> WaitDuration {
        if self.total() <= other.total() {
            self
        } else {
            other
        }
    }
}

/// Whether the site is asked for the paid course, and whether to warn that
/// the international site has none. For the international site the flag
/// is not sent, and the warning comes when the paid course was not asked
/// for.
pub fn force_paid_flag(international: bool, force_paid: bool) -> (r: (bool, bool))
    ensures
        r == (if international {
            (false, !force_paid)
        } else {
            (force_paid, false)
        }),
{
    if international {
        (false, !force_paid)
    } else {
        (force_paid, false)
    }
}

/// What to do about the paid course when the watcher stops.
#[derive(Clone, PartialEq, Eq, Debug)]
pub enum SwitchBack {
    /// Nothing to give back.
    Nothing,
    /// The international site has no paid course: report that and skip.
    International,
    /// Log in as this account with the paid course, to give it back.
    To(String),
}

/// Decides what to do about the paid course when the watcher stops.
pub fn switch_back(config: &Option<ForcePaidConfig>, international: bool) -> (r: SwitchBack)
    ensures
        match config {
            None => r == SwitchBack::Nothing,
            Some(c) => if international {
                r == SwitchBack::International
            } else {
                match &c.after_use {
                    None => r == SwitchBack::Nothing,
                    Some(a) => r matches SwitchBack::To(b) && b@ == a@,
                }
            },
        },
{
    match config {
        None => SwitchBack::Nothing,
        Some(c) => if international {
            SwitchBack::International
        } else {
            match &c.after_use {
                None => SwitchBack::Nothing,
                Some(a) => SwitchBack::To(a.clone()),
            }
        },
    }
}

} // verus!
