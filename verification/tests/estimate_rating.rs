use maimai_scraping::maimai::estimate_rating::{
    below_candidates, best_records, single_song_rating_for_target_entry, KeyFromTargetEntry,
    RemovedStoreSong, ScoreConstantsStore, ScoreKey, StoreError, StoreRecord, StoreSong,
};
use maimai_scraping::maimai::parser::rating_target::{RatingTargetEntry, RatingTargetList};
use maimai_scraping::maimai::parser::song_score::ScoreIdx;
use maimai_scraping::maimai::rating::{ScoreConstant, ScoreLevel};
use maimai_scraping::maimai::schema::latest::{
    AchievementRank, AchievementValue, PlayTime, RatingValue, ScoreDifficulty, ScoreGeneration,
    ScoreMetadata, SongName,
};
use maimai_scraping::maimai::song_list::in_lv::{
    InternalScoreLevel, InternalScoreLevelEntry, Levels, ScoreLevels,
};
use maimai_scraping::maimai::version::MaimaiVersion;

fn sc(v: u8) -> ScoreConstant {
    ScoreConstant::try_from_u8(v).unwrap()
}

fn unknown(level: u8) -> InternalScoreLevel {
    InternalScoreLevel::Unknown(ScoreLevel::new(level, false).unwrap())
}

fn entry(value: InternalScoreLevel, index: usize) -> InternalScoreLevelEntry<Levels> {
    InternalScoreLevelEntry { value, index }
}

fn levels(master: InternalScoreLevel) -> ScoreLevels<Levels> {
    ScoreLevels {
        basic: entry(unknown(5), 0),
        advanced: entry(unknown(8), 1),
        expert: entry(unknown(11), 2),
        master: entry(master, 3),
        re_master: None,
    }
}

fn song(icon: usize, name: &str, version: MaimaiVersion, master: InternalScoreLevel) -> StoreSong {
    StoreSong {
        icon,
        name: name.to_string(),
        generation: ScoreGeneration::Deluxe,
        version,
        levels: levels(master),
    }
}

fn key(icon: usize, difficulty: ScoreDifficulty) -> ScoreKey {
    ScoreKey { icon, generation: ScoreGeneration::Deluxe, difficulty }
}

fn achievement(v: u32) -> AchievementValue {
    AchievementValue::try_from_u32(v).unwrap()
}

/// Song 0 "A" (BUDDiES, MASTER 13), song 1 "B" (FESTiVAL, MASTER 12.5),
/// song 2 "C" (BUDDiES, MASTER 13.2); song 9 "Gone" was removed.
fn store() -> ScoreConstantsStore {
    let songs = vec![
        song(0, "A", MaimaiVersion::Buddies, unknown(13)),
        song(1, "B", MaimaiVersion::Festival, InternalScoreLevel::Known(sc(125))),
        song(2, "C", MaimaiVersion::Buddies, InternalScoreLevel::Known(sc(132))),
    ];
    let removed = vec![RemovedStoreSong { icon: 9, name: "Gone".to_string(), levels: None }];
    ScoreConstantsStore::new(&songs, &removed).unwrap()
}

fn candidates(st: &ScoreConstantsStore, k: ScoreKey) -> Vec<u8> {
    st.get(k).unwrap().unwrap().candidates.iter().map(|c| c.get()).collect()
}

#[test]
fn store_starts_from_levels() {
    let st = store();
    assert_eq!(st.events().len(), 12);
    assert_eq!(st.num_determined_songs(), 2);
    assert_eq!(candidates(&st, key(0, ScoreDifficulty::Master)), vec![130, 131, 132, 133, 134, 135]);
    assert_eq!(candidates(&st, key(1, ScoreDifficulty::Master)), vec![125]);
    assert_eq!(st.events()[3].1, "Constrained to [13.0, 13.1, 13.2, 13.3, 13.4, 13.5] because this score's level is 13");
    assert_eq!(st.events()[7].1, "Constrained to [12.5] as it is already known");
    assert!(matches!(st.get(key(9, ScoreDifficulty::Master)), Ok(None)));
    assert!(matches!(
        st.get(key(5, ScoreDifficulty::Master)),
        Err(StoreError::NotFound(k)) if k == key(5, ScoreDifficulty::Master)
    ));
    assert!(matches!(st.get(key(0, ScoreDifficulty::ReMaster)), Err(StoreError::NotFound(_))));
}

#[test]
fn store_duplicates() {
    let songs = vec![
        song(0, "A", MaimaiVersion::Buddies, unknown(13)),
        song(0, "A2", MaimaiVersion::Buddies, unknown(12)),
    ];
    assert!(matches!(
        ScoreConstantsStore::new(&songs, &vec![]),
        Err(StoreError::DuplicateSong(0, ScoreGeneration::Deluxe))
    ));
    let removed = vec![
        RemovedStoreSong { icon: 9, name: "x".to_string(), levels: None },
        RemovedStoreSong { icon: 9, name: "y".to_string(), levels: None },
    ];
    assert!(matches!(
        ScoreConstantsStore::new(&vec![], &removed),
        Err(StoreError::DuplicateRemoved(9))
    ));
}

#[test]
fn store_removed_song_levels_replace() {
    let songs = vec![song(0, "A", MaimaiVersion::Buddies, unknown(13))];
    let removed = vec![RemovedStoreSong {
        icon: 0,
        name: "A".to_string(),
        levels: Some(song(0, "A", MaimaiVersion::Buddies, InternalScoreLevel::Known(sc(134)))),
    }];
    let st = ScoreConstantsStore::new(&songs, &removed).unwrap();
    assert_eq!(st.events().len(), 4);
    assert_eq!(candidates(&st, key(0, ScoreDifficulty::Master)), vec![134]);
}

#[test]
fn store_set_narrows() {
    let mut st = store();
    let k = key(0, ScoreDifficulty::Master);
    assert_eq!(st.set(k, &vec![sc(132), sc(133), sc(140)], "by test"), Ok(()));
    assert_eq!(candidates(&st, k), vec![132, 133]);
    assert_eq!(st.events().len(), 13);
    assert_eq!(st.events()[12].1, "Constrained to [13.2, 13.3] by test");
    assert_eq!(st.get(k).unwrap().unwrap().reasons, vec![3, 12]);
    // Nothing removed: no event.
    assert_eq!(st.set(k, &vec![sc(132), sc(133)], "again"), Ok(()));
    assert_eq!(st.events().len(), 13);
    assert_eq!(st.set(k, &vec![], "none"), Err(StoreError::NoMoreCandidates(k)));
    assert_eq!(
        st.set(key(4, ScoreDifficulty::Basic), &vec![], "x"),
        Err(StoreError::NotFound(key(4, ScoreDifficulty::Basic)))
    );
}

#[test]
fn store_register_single_song_rating() {
    let mut st = store();
    let k = key(0, ScoreDifficulty::Master);
    let time = PlayTime::from_naive_seconds(0);
    // 13.3 at 100.5000%: 299.41, shown as 299.
    assert_eq!(st.register_single_song_rating(k, Some("me"), achievement(100_5000), 299, time), Ok(()));
    assert_eq!(candidates(&st, k), vec![133]);
    assert_eq!(st.num_determined_songs(), 3);
    assert_eq!(
        st.events()[12].1,
        "Constrained to [13.3] beacuse record played at 1970-01-01 00:00:00 achieving 100.5000% played by UserName(\"me\") determines the single-song rating to be 299"
    );
}

fn target_entry(name: &str, level: ScoreLevel, a: u32) -> RatingTargetEntry {
    RatingTargetEntry {
        score_metadata: ScoreMetadata {
            generation: ScoreGeneration::Deluxe,
            difficulty: ScoreDifficulty::Master,
        },
        song_name: SongName(name.to_string()),
        level,
        achievement: achievement(a),
        idx: ScoreIdx(String::new()),
    }
}

#[test]
fn store_key_from_target_entry() {
    let songs = vec![
        song(0, "A", MaimaiVersion::Buddies, unknown(13)),
        song(1, "Twin", MaimaiVersion::Buddies, unknown(13)),
        song(2, "Twin", MaimaiVersion::Buddies, unknown(12)),
    ];
    let st = ScoreConstantsStore::new(&songs, &vec![]).unwrap();
    let l = ScoreLevel::new(13, false).unwrap();
    assert_eq!(
        st.key_from_target_entry(&target_entry("A", l, 100_0000)),
        KeyFromTargetEntry::Unique(key(0, ScoreDifficulty::Master))
    );
    assert_eq!(st.key_from_target_entry(&target_entry("Twin", l, 100_0000)), KeyFromTargetEntry::Multiple);
    assert_eq!(st.key_from_target_entry(&target_entry("Nope", l, 100_0000)), KeyFromTargetEntry::NotFound);
    assert!(matches!(st.levels_from_target_entry(&target_entry("Nope", l, 100_0000)), Err(StoreError::UnknownSong)));
    assert!(matches!(st.levels_from_target_entry(&target_entry("Twin", l, 100_0000)), Ok(None)));
    let (k, lv) = st.levels_from_target_entry(&target_entry("A", l, 100_0000)).unwrap().unwrap();
    assert_eq!(k, key(0, ScoreDifficulty::Master));
    assert_eq!(lv.len(), 6);
}

fn record(k: ScoreKey, t: i64, a: u32, rank: AchievementRank, delta: i16) -> StoreRecord {
    StoreRecord {
        key: k,
        time: PlayTime::from_naive_seconds(t),
        achievement: achievement(a),
        rank,
        rating_delta: delta,
    }
}

#[test]
fn store_determine_by_delta() {
    let mut st = store();
    let master = key(0, ScoreDifficulty::Master);
    let records = vec![
        // Before the version: passed over.
        record(master, 5, 100_5000, AchievementRank::SSSPlus, 1),
        // A removed song: passed over.
        record(key(9, ScoreDifficulty::Master), 20, 100_5000, AchievementRank::SSSPlus, 50),
        // An old song while studying new ones: passed over.
        record(key(1, ScoreDifficulty::Master), 20, 100_5000, AchievementRank::SSSPlus, 50),
        // The first new chart: its rating is the delta.
        record(master, 30, 100_5000, AchievementRank::SSSPlus, 299),
    ];
    let start = PlayTime::from_naive_seconds(10);
    assert_eq!(
        st.determine_by_delta(MaimaiVersion::Buddies, start, None, false, None, &records, false),
        Ok(())
    );
    assert_eq!(candidates(&st, master), vec![133]);
    let unknown_chart = vec![record(key(7, ScoreDifficulty::Basic), 30, 100_0000, AchievementRank::SSS, 10)];
    assert_eq!(
        st.determine_by_delta(MaimaiVersion::Buddies, start, None, false, None, &unknown_chart, false),
        Err(StoreError::NotFound(key(7, ScoreDifficulty::Basic)))
    );
}

fn list(target_new: Vec<RatingTargetEntry>) -> RatingTargetList {
    RatingTargetList {
        rating: RatingValue::from_u16(0),
        target_new,
        target_old: vec![],
        candidates_new: vec![],
        candidates_old: vec![],
    }
}

#[test]
fn store_records_not_in_targets() {
    let mut st = store();
    let master = key(0, ScoreDifficulty::Master);
    let l = ScoreLevel::new(13, false).unwrap();
    // The list holds only "C" (13.2) at 100.5000%: rating 297.
    let targets = vec![(PlayTime::from_naive_seconds(100), list(vec![target_entry("C", l, 100_5000)]))];
    let records = vec![
        record(master, 50, 99_0000, AchievementRank::SS, 0),
        record(master, 60, 100_5000, AchievementRank::SSSPlus, 0),
        // No list after it: passed over.
        record(master, 200, 80_0000, AchievementRank::A, 0),
    ];
    assert_eq!(
        st.records_not_in_targets(MaimaiVersion::Buddies, false, PlayTime::from_naive_seconds(0), None, None, &records, &targets),
        Ok(())
    );
    // An SSS+ record of 13.3 or more would rate above 297.
    assert_eq!(candidates(&st, master), vec![130, 131, 132]);
    assert_eq!(
        st.events()[12].1,
        "Constrained to [13.0, 13.1, 13.2] because record played at 1970-01-01 00:01:00 achieving 100.5000% is not in list at 1970-01-01 00:01:40, so it's below (RatingValue(297), AchievementValue(1005000))"
    );
    // A list naming an unknown song fails.
    let bad = vec![(PlayTime::from_naive_seconds(100), list(vec![target_entry("Nope", l, 100_5000)]))];
    assert_eq!(
        st.records_not_in_targets(MaimaiVersion::Buddies, false, PlayTime::from_naive_seconds(0), None, None, &records, &bad),
        Err(StoreError::UnknownSong)
    );
}

#[test]
fn store_helpers() {
    let r = |t: i64, a: u32| record(key(0, ScoreDifficulty::Master), t, a, AchievementRank::S, 0);
    let other = record(key(1, ScoreDifficulty::Master), 3, 97_0000, AchievementRank::S, 0);
    let best = best_records(&vec![r(1, 98_0000), other, r(2, 99_0000), r(3, 99_0000)], &vec![]);
    assert_eq!(best.len(), 2);
    assert_eq!(best[0].time, PlayTime::from_naive_seconds(2));
    assert_eq!(best[1], other);
    assert!(best_records(&vec![other], &vec![key(1, ScoreDifficulty::Master)]).is_empty());
    // At 100.5000%, constants up to 13.2 rate at most 297.
    let below = below_candidates((297, 100_5000), (0, 0), achievement(100_5000), false);
    assert_eq!(below.last().unwrap().get(), 132);
    assert_eq!(below.len(), 123);
    let e = target_entry("C", ScoreLevel::new(13, false).unwrap(), 100_5000);
    assert_eq!(single_song_rating_for_target_entry(sc(132), &e).get(), 297);
}
