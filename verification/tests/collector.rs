use maimai_scraping::data_collector::records_to_download;
use maimai_scraping::maimai::data_collector::{plan_target_update, InconsistentTargets, TargetUpdate};
use maimai_scraping::maimai::schema::latest::{Idx, PlayTime};

fn t(s: i64) -> PlayTime {
    PlayTime::from_naive_seconds(s)
}

fn idx(i: u8) -> Idx {
    Idx::new(i, None).unwrap()
}

#[test]
fn download_oldest_first_and_only_new() {
    // The index lists the newest play first.
    let index = vec![(t(300), idx(0)), (t(200), idx(1)), (t(100), idx(2))];
    let saved = vec![t(200)];
    let plan = records_to_download(&saved, &index);
    assert_eq!(plan, vec![(t(100), idx(2)), (t(300), idx(0))]);
    // A time seen twice is downloaded once, as its older entry.
    let twice = vec![(t(100), idx(0)), (t(100), idx(1))];
    assert_eq!(records_to_download(&vec![], &twice), vec![(t(100), idx(1))]);
    assert_eq!(records_to_download(&vec![t(100)], &twice), vec![]);
}

#[test]
fn target_update_plans() {
    // The last play is taken to its minute.
    assert_eq!(plan_target_update(None, t(125), false), Ok(TargetUpdate::Store(t(120))));
    assert_eq!(plan_target_update(Some(t(60)), t(125), false), Ok(TargetUpdate::Store(t(120))));
    assert_eq!(plan_target_update(Some(t(120)), t(125), false), Ok(TargetUpdate::UpToDate));
    assert_eq!(plan_target_update(Some(t(180)), t(125), false), Err(InconsistentTargets));
    assert_eq!(plan_target_update(Some(t(180)), t(125), true), Ok(TargetUpdate::StoreNow));
    // Before 1970 the minute starts earlier.
    assert_eq!(plan_target_update(None, t(-1), false), Ok(TargetUpdate::Store(t(-60))));
}

#[test]
fn second_update_downloads_nothing() {
    let index = vec![(t(300), idx(0)), (t(200), idx(1)), (t(100), idx(2)), (t(100), idx(3))];
    let mut saved = vec![t(200)];
    let plan = records_to_download(&saved, &index);
    assert_eq!(plan.len(), 2);
    saved.extend(plan.iter().map(|e| e.0));
    assert!(records_to_download(&saved, &index).is_empty());
}

#[test]
fn stored_target_list_settles() {
    let played = t(3725);
    let Ok(TargetUpdate::Store(m)) = plan_target_update(Some(t(0)), played, false) else {
        panic!("expected a list to store");
    };
    assert_eq!(m, t(3720));
    assert_eq!(plan_target_update(Some(m), played, false), Ok(TargetUpdate::UpToDate));
}
