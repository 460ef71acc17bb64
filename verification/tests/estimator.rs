use maimai_scraping::maimai::internal_lv_estimator::{
    played_within, DeltaRecord, Estimator, EstimatorConfig, EstimatorError, NewOrOld, Reason,
    ScoreKey, TopRatings,
};
use maimai_scraping::maimai::rating::{InternalScoreLevel, ScoreConstant, ScoreLevel};
use maimai_scraping::maimai::schema::latest::{AchievementValue, PlayTime};
use maimai_scraping::maimai::version::MaimaiVersion;

fn sc(v: u8) -> ScoreConstant {
    ScoreConstant::try_from_u8(v).unwrap()
}

fn sss_plus() -> AchievementValue {
    AchievementValue::try_from_u32(100_5000).unwrap()
}

/// Chart 0: level 13 of BUDDiES (13.0 to 13.6); chart 1: known to be 12.5.
fn levels() -> Vec<Option<InternalScoreLevel>> {
    let v = MaimaiVersion::Buddies;
    vec![
        Some(InternalScoreLevel::unknown(v, ScoreLevel::new(13, false).unwrap())),
        Some(InternalScoreLevel::known(sc(125))),
    ]
}

fn estimator() -> Estimator<u32, u32> {
    Estimator::new(MaimaiVersion::Buddies, &levels()).unwrap()
}

fn record(score: usize, version: Option<MaimaiVersion>, delta: i16, label: u32) -> DeltaRecord<u32> {
    DeltaRecord {
        within_version: true,
        score: ScoreKey(score),
        score_version: version,
        achievement: sss_plus(),
        rating_delta: delta,
        label,
    }
}

#[test]
fn estimator_starts_from_database() {
    let e = estimator();
    assert_eq!(e.event_len(), 2);
    assert_eq!(e.num_determined_scores(), 1);
    let c0 = e.get(ScoreKey(0)).unwrap();
    assert_eq!(c0.score(), ScoreKey(0));
    assert_eq!(c0.candidates().count_candidates(), 7);
    let reasons = c0.reasons();
    assert_eq!(reasons.len(), 1);
    assert_eq!(reasons[0].reason, Reason::Database(c0.candidates()));
    assert!(e.get(ScoreKey(2)).is_none());
    assert_eq!(e.get_scores().len(), 2);
}

#[test]
fn estimator_missing_level() {
    let mut levels = levels();
    levels[1] = None;
    assert_eq!(
        Estimator::<u32, u32>::new(MaimaiVersion::Buddies, &levels).err(),
        Some(EstimatorError::MissingLevel(ScoreKey(1)))
    );
}

#[test]
fn estimator_distrust_all() {
    let e = Estimator::<u32, u32>::new_distrust_all(MaimaiVersion::Buddies, &levels()).unwrap();
    // 12.5 is only trusted as "some constant of level 12": 12.0 to 12.6.
    let c1 = e.get(ScoreKey(1)).unwrap().candidates();
    assert_eq!(c1.count_candidates(), 7);
    assert!(c1.contains(sc(120)) && c1.contains(sc(126)) && !c1.contains(sc(127)));
    assert_eq!(e.num_determined_scores(), 0);
}

#[test]
fn register_single_song_rating_determines_constant() {
    let mut e = estimator();
    // 13.3 at 100.5000%: 133 * 100.5 * 22.4 / 1000 = 299.41, shown as 299.
    assert_eq!(e.register_single_song_rating(ScoreKey(0), sss_plus(), 299, 7), Ok(()));
    let c0 = e.get(ScoreKey(0)).unwrap();
    assert_eq!(c0.candidates().get_if_unique(), Some(sc(133)));
    let reasons = c0.reasons();
    assert_eq!(reasons.len(), 2);
    assert_eq!(reasons[1].reason, Reason::Delta(sss_plus(), 299, 7));
    assert_eq!(e.event_len(), 3);
    assert_eq!(e.num_determined_scores(), 2);
    // Learning the same again narrows nothing and records no event.
    assert_eq!(e.register_single_song_rating(ScoreKey(0), sss_plus(), 299, 8), Ok(()));
    assert_eq!(e.event_len(), 3);
}

#[test]
fn register_single_song_rating_errors() {
    let mut e = estimator();
    assert_eq!(
        e.register_single_song_rating(ScoreKey(0), sss_plus(), 1, 0),
        Err(EstimatorError::NoMoreCandidates(ScoreKey(0)))
    );
    assert_eq!(
        e.register_single_song_rating(ScoreKey(5), sss_plus(), 299, 0),
        Err(EstimatorError::NotInMap(ScoreKey(5)))
    );
}

#[test]
fn determine_by_delta_learns_first_rating() {
    let mut e = estimator();
    let records = vec![
        // Outside the version: ignored.
        DeltaRecord { within_version: false, ..record(0, Some(MaimaiVersion::Buddies), 1, 0) },
        // An old song while studying new songs: ignored.
        record(1, Some(MaimaiVersion::Festival), 100, 1),
        // First new chart in the list: its rating is the delta.
        record(0, Some(MaimaiVersion::Buddies), 299, 2),
    ];
    assert_eq!(e.determine_by_delta(&records, NewOrOld::New), Ok(()));
    assert_eq!(e.get(ScoreKey(0)).unwrap().candidates().get_if_unique(), Some(sc(133)));
    assert_eq!(e.get(ScoreKey(1)).unwrap().candidates().get_if_unique(), Some(sc(125)));
}

#[test]
fn determine_by_delta_errors() {
    let mut e = estimator();
    assert_eq!(
        e.determine_by_delta(&vec![record(0, None, 10, 0)], NewOrOld::New),
        Err(EstimatorError::NoVersion(ScoreKey(0)))
    );
    let mut e = estimator();
    assert_eq!(
        e.determine_by_delta(&vec![record(0, Some(MaimaiVersion::Buddies), 10, 0)], NewOrOld::New),
        Err(EstimatorError::NoMoreCandidates(ScoreKey(0)))
    );
    let mut e = estimator();
    assert_eq!(
        e.determine_by_delta(&vec![record(9, Some(MaimaiVersion::Buddies), 10, 0)], NewOrOld::New),
        Err(EstimatorError::NotInMap(ScoreKey(9)))
    );
}

#[test]
fn determine_by_delta_rating_overflow() {
    let mut e = Estimator::<u32, u32>::new(MaimaiVersion::Buddies, &vec![]).unwrap();
    // A chart outside the estimator still enters the list of rated charts
    // before the estimator is asked about it.
    assert_eq!(
        e.determine_by_delta(&vec![record(0, Some(MaimaiVersion::Buddies), 10, 0)], NewOrOld::New),
        Err(EstimatorError::NotInMap(ScoreKey(0)))
    );
    let mut e = estimator();
    let records = vec![
        record(0, Some(MaimaiVersion::Buddies), 299, 0),
        record(0, Some(MaimaiVersion::Buddies), 32767, 1),
    ];
    assert_eq!(
        e.determine_by_delta(&records, NewOrOld::New),
        Err(EstimatorError::RatingOverflow(ScoreKey(0)))
    );
}

#[test]
fn top_ratings_replace_lowest() {
    let mut t = TopRatings::new(2);
    assert_eq!(t.apply(1, 100), 100);
    assert_eq!(t.apply(2, 50), 50);
    // Full: chart 3 takes the place of chart 2 (rating 50) and gains 30.
    assert_eq!(t.apply(3, 30), 80);
    // Chart 2 left the list; it comes back in place of chart 3 (80).
    assert_eq!(t.apply(2, 10), 90);
    // Chart 1 is still there.
    assert_eq!(t.apply(1, -5), 95);
}

#[test]
fn top_ratings_step_fits() {
    let mut t = TopRatings::new(1);
    assert!(t.step_fits(1, 32767));
    assert_eq!(t.apply(1, 32767), 32767);
    assert!(!t.step_fits(1, 1));
    assert!(!t.step_fits(2, 1));
    assert!(t.step_fits(2, -1));
}

#[test]
fn played_within_range() {
    let config = EstimatorConfig {
        new_songs_are_complete: false,
        old_songs_are_complete: false,
        ignore_time: false,
    };
    let t = |s: i64| PlayTime::from_naive_seconds(s);
    assert!(played_within(config, t(100), Some(t(200)), t(100)));
    assert!(!played_within(config, t(100), Some(t(200)), t(200)));
    assert!(!played_within(config, t(100), Some(t(200)), t(99)));
    assert!(played_within(config, t(100), None, t(1_000_000)));
    let ignore = EstimatorConfig { ignore_time: true, ..config };
    assert!(played_within(ignore, t(100), Some(t(200)), t(5)));
}

#[test]
fn determine_by_delta_ignores_records_outside_the_version() {
    let records = vec![
        DeltaRecord { within_version: false, ..record(0, Some(MaimaiVersion::Buddies), 1, 0) },
        record(1, Some(MaimaiVersion::Festival), 100, 1),
        DeltaRecord { within_version: false, ..record(9, None, 5, 3) },
        record(0, Some(MaimaiVersion::Buddies), 299, 2),
    ];
    let within: Vec<DeltaRecord<u32>> = records.iter().filter(|r| r.within_version).cloned().collect();
    let mut e1 = estimator();
    let mut e2 = estimator();
    assert_eq!(e1.determine_by_delta(&records, NewOrOld::New), e2.determine_by_delta(&within, NewOrOld::New));
    for k in 0..2 {
        assert_eq!(
            e1.get(ScoreKey(k)).unwrap().candidates().get_if_unique(),
            e2.get(ScoreKey(k)).unwrap().candidates().get_if_unique()
        );
    }
}
