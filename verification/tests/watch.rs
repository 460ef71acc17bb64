use maimai_scraping::watcher::watch::{
    after_run, after_wait, force_paid_flag, switch_back, wait_step, ForcePaidConfig, RunOutcome,
    RunReport, SwitchBack, TimeoutConfig, WaitDuration, WaitVerdict,
};

#[test]
fn timeouts() {
    let single = TimeoutConfig::single();
    assert_eq!(single.max_count(), 1);
    assert_eq!(single.max_duration(), WaitDuration::max());
    let r = after_run(&single, true, RunOutcome::NoUpdates);
    assert_eq!(r.report, Some(RunReport::AlreadyUpToDate));
    assert!(r.stop);
    assert!(!r.reset_update_timer);
    let indefinite = TimeoutConfig::indefinite();
    assert_eq!(indefinite.max_count(), usize::MAX);
    let r = after_run(&indefinite, false, RunOutcome::Updated);
    assert!(r.reset_update_timer && !r.stop && r.report.is_none());
    let r = after_run(&indefinite, false, RunOutcome::Failed);
    assert_eq!(r.report, Some(RunReport::Error));
    assert_eq!(after_run(&indefinite, false, RunOutcome::NoUpdates).report, None);
}

#[test]
fn waiting() {
    let hour = WaitDuration::new(3600, 0).unwrap();
    let c = TimeoutConfig::with_max_duration(hour);
    let short = WaitDuration::new(10, 5).unwrap();
    assert_eq!(after_wait(&c, 0, short), (1, WaitVerdict::Continue));
    assert_eq!(after_wait(&c, 3, hour), (4, WaitVerdict::NoUpdatesForAWhile));
    assert_eq!(after_wait(&TimeoutConfig::indefinite(), usize::MAX - 2, short).1, WaitVerdict::Continue);
    assert_eq!(
        after_wait(&TimeoutConfig::indefinite(), usize::MAX - 1, short).1,
        WaitVerdict::CountReached
    );
    let chunk = WaitDuration::from_millis(250);
    assert_eq!((chunk.secs(), chunk.nanos()), (0, 250_000_000));
    let (sleep, rest) = wait_step(WaitDuration::from_millis(600), chunk);
    assert_eq!(sleep, chunk);
    assert_eq!(rest, Some(WaitDuration::from_millis(350)));
    let (sleep, rest) = wait_step(WaitDuration::from_millis(100), chunk);
    assert_eq!(sleep, WaitDuration::from_millis(100));
    assert_eq!(rest, None);
    let d = WaitDuration::new(2, 100).unwrap().checked_sub(WaitDuration::new(1, 200).unwrap());
    assert_eq!(d, WaitDuration::new(0, 999_999_900));
    assert!(WaitDuration::new(1, 2_000_000_000).is_none());
}

#[test]
fn paid_course() {
    assert_eq!(force_paid_flag(false, true), (true, false));
    assert_eq!(force_paid_flag(true, true), (false, false));
    assert_eq!(force_paid_flag(true, false), (false, true));
    let c = Some(ForcePaidConfig { after_use: Some("main".to_owned()) });
    assert_eq!(switch_back(&c, false), SwitchBack::To("main".to_owned()));
    assert_eq!(switch_back(&c, true), SwitchBack::International);
    assert_eq!(switch_back(&None, false), SwitchBack::Nothing);
    assert_eq!(
        switch_back(&Some(ForcePaidConfig { after_use: None }), false),
        SwitchBack::Nothing
    );
}
