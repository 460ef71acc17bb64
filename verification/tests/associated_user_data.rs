use maimai_scraping::maimai::associated_user_data::{
    AssociationError, PlayRecord as AssociatedRecord, RatingTargetEntry as AssociatedEntry,
    RatingTargetList as AssociatedList, UserData,
};
use maimai_scraping::maimai::parser::rating_target::{RatingTargetEntry, RatingTargetList};
use maimai_scraping::maimai::parser::song_score::ScoreIdx;
use maimai_scraping::maimai::rating::{InternalScoreLevel, ScoreConstant, ScoreLevel};
use maimai_scraping::maimai::schema::latest::{
    AchievementRank, AchievementResult, AchievementValue, ComboResult, DeluxscoreRank,
    DeluxscoreResult, FullComboKind, Idx, JudgeCount, JudgeCountWithCP, JudgeCountWithoutCP,
    JudgeResult, LifeResult, PlayRecord, PlayTime, PlayedAt, RatingBorderColor, RatingDeltaSign, RatingResult,
    RatingValue, ScoreDifficulty, ScoreGeneration, ScoreMetadata, SongIcon, SongMetadata,
    SongName, TourMember, TourMemberIcon, TourMemberList, TrackIndex, UtageKind, UtageKindRaw,
    UtageMetadata, ValueWithMax,
};
use maimai_scraping::maimai::song_list::database::{
    OrdinaryScore, OrdinaryScores, ScoreForVersionRef, Song, SongDatabase,
};
use maimai_scraping::maimai::song_list::{RemoveState, UtageComment, UtageScore};
use maimai_scraping::maimai::version::MaimaiVersion;
use maimai_scraping::watcher::describe_record::{known_level, KnownLevel};

/// 2024-01-01 00:00:00, in the Buddies version.
const IN_BUDDIES: i64 = 1704067200;

fn icon(n: u8) -> SongIcon {
    SongIcon(format!("https://maimaidx.jp/maimai-mobile/img/Music/{:016x}.png", n))
}

fn chart(v: u8) -> OrdinaryScore {
    OrdinaryScore {
        levels: vec![(
            MaimaiVersion::Buddies,
            InternalScoreLevel::known(ScoreConstant::try_from_u8(v).unwrap()),
        )],
    }
}

fn song(name: &str, n: u8, utage: Vec<&str>) -> Song {
    Song {
        name: vec![(MaimaiVersion::Buddies, SongName(name.to_owned()))],
        category: vec![],
        artist: vec![],
        pronunciation: None,
        abbreviation: vec![],
        standard: None,
        deluxe: Some(OrdinaryScores {
            easy: None,
            basic: chart(50),
            advanced: chart(80),
            expert: chart(110),
            master: chart(130),
            re_master: None,
            version: Some(MaimaiVersion::Buddies),
        }),
        utage_scores: utage
            .into_iter()
            .map(|k| {
                UtageScore::new(
                    ScoreLevel::new(13, false).unwrap(),
                    UtageComment(String::new()),
                    UtageKindRaw(k.to_owned()),
                    false,
                    None,
                )
            })
            .collect(),
        icon: Some(icon(n)),
        remove_state: RemoveState::Present,
        locked_history: vec![],
    }
}

fn songs() -> Vec<Song> {
    vec![
        song("A", 1, vec!["宴"]),
        song("Twin", 2, vec!["宴", "宴"]),
        song("Twin", 3, vec![]),
    ]
}

fn wcp(a: u32) -> JudgeCountWithCP {
    JudgeCountWithCP {
        critical_perfect: a,
        others: JudgeCountWithoutCP { perfect: 0, great: 0, good: 0, miss: 0 },
    }
}

fn record(n: u8, time: i64, generation: ScoreGeneration, utage: Option<UtageKind>) -> PlayRecord {
    PlayRecord {
        played_at: PlayedAt {
            idx: Idx::new(0, None).unwrap(),
            time: PlayTime::from_naive_seconds(time),
            place: None,
            track: TrackIndex::try_from_u8(1).unwrap(),
        },
        song_metadata: SongMetadata { name: SongName("Song".to_owned()), cover_art: icon(n) },
        score_metadata: ScoreMetadata { generation, difficulty: ScoreDifficulty::Master },
        utage_metadata: utage.map(|kind| UtageMetadata { kind, buddy: false }),
        cleared: true,
        achievement_result: AchievementResult {
            value: AchievementValue::try_from_u32(1005000).unwrap(),
            new_record: true,
            rank: AchievementRank::SSSPlus,
        },
        deluxscore_result: DeluxscoreResult {
            score: ValueWithMax::new(300, 330).unwrap(),
            rank: DeluxscoreRank::try_from_u8(3).unwrap(),
            new_record: false,
        },
        combo_result: ComboResult {
            full_combo_kind: FullComboKind::AllPerfectPlus,
            combo: ValueWithMax::new(110, 110).unwrap(),
        },
        battle_result: None,
        matching_result: None,
        life_result: LifeResult::Nothing,
        tour_members: TourMemberList::try_from_vec(vec![TourMember {
            star: 1,
            icon: TourMemberIcon("i".to_owned()),
            level: 1,
        }])
        .unwrap(),
        rating_result: RatingResult {
            rating: RatingValue::from_u16(15000),
            delta: 0,
            delta_sign: RatingDeltaSign::Keep,
            border_color: RatingBorderColor::Rainbow,
        },
        judge_result: JudgeResult {
            fast: 0,
            late: 0,
            tap: JudgeCount::JudgeCountWithCP(wcp(100)),
            hold: JudgeCount::Nothing,
            slide: JudgeCount::Nothing,
            touch: JudgeCount::Nothing,
            break_: wcp(10),
        },
    }
}

fn entry(name: &str, idx: &str) -> RatingTargetEntry {
    RatingTargetEntry {
        score_metadata: ScoreMetadata {
            generation: ScoreGeneration::Deluxe,
            difficulty: ScoreDifficulty::Master,
        },
        song_name: SongName(name.to_owned()),
        level: ScoreLevel::new(13, false).unwrap(),
        achievement: AchievementValue::try_from_u32(1000000).unwrap(),
        idx: ScoreIdx(idx.to_owned()),
    }
}

fn list(target_new: Vec<RatingTargetEntry>) -> RatingTargetList {
    RatingTargetList {
        rating: RatingValue::from_u16(15000),
        target_new,
        target_old: vec![],
        candidates_new: vec![],
        candidates_old: vec![],
    }
}

#[test]
fn record_on_ordinary_chart() {
    let songs = songs();
    let db = SongDatabase::new(&songs).unwrap();
    let r = record(1, IN_BUDDIES, ScoreGeneration::Deluxe, None);
    let a = AssociatedRecord::annotate(&db, &r).unwrap();
    match a.score() {
        Ok(ScoreForVersionRef::Ordinary(o)) => {
            assert_eq!(o.version, MaimaiVersion::Buddies);
            assert_eq!(o.score.difficulty(), ScoreDifficulty::Master);
            assert_eq!(o.score.scores().song().id(), db.songs()[0].id());
            assert_eq!(o.level, Some(InternalScoreLevel::known(ScoreConstant::try_from_u8(130).unwrap())));
        }
        _ => panic!("expected an ordinary chart"),
    }
    let ordinary = a.as_ordinary().unwrap();
    let assoc = ordinary.into_associated().unwrap();
    assert_eq!(assoc.record, &r);
}

#[test]
fn record_errors() {
    let songs = songs();
    let db = SongDatabase::new(&songs).unwrap();
    // No song has the cover art.
    let unknown = record(9, IN_BUDDIES, ScoreGeneration::Deluxe, None);
    assert!(matches!(AssociatedRecord::annotate(&db, &unknown), Err(AssociationError::NoSongForIcon)));
    // The song has no standard charts: the record is kept with the error.
    let standard = record(1, IN_BUDDIES, ScoreGeneration::Standard, None);
    let a = AssociatedRecord::annotate(&db, &standard).unwrap();
    assert!(matches!(a.score(), Err(AssociationError::NoGeneration(ScoreGeneration::Standard))));
    assert!(matches!(
        a.as_ordinary().unwrap().into_associated(),
        Err(AssociationError::NoGeneration(ScoreGeneration::Standard))
    ));
    // Before any version.
    let early = record(1, 0, ScoreGeneration::Deluxe, None);
    let a = AssociatedRecord::annotate(&db, &early).unwrap();
    assert!(matches!(a.score(), Err(AssociationError::NoVersion)));
}

#[test]
fn record_on_utage_chart() {
    let songs = songs();
    let db = SongDatabase::new(&songs).unwrap();
    let one = record(1, IN_BUDDIES, ScoreGeneration::Deluxe, Some(UtageKind::Miscellaneous));
    let a = AssociatedRecord::annotate(&db, &one).unwrap();
    match a.score() {
        Ok(ScoreForVersionRef::Utage(u)) => {
            assert_eq!(u.score().kanji, UtageKindRaw("宴".to_owned()));
            assert_eq!(u.song().id(), db.songs()[0].id());
        }
        _ => panic!("expected an utage chart"),
    }
    // An utage record is no ordinary record.
    assert!(a.as_ordinary().is_none());
    let two = record(2, IN_BUDDIES, ScoreGeneration::Deluxe, Some(UtageKind::Miscellaneous));
    let a = AssociatedRecord::annotate(&db, &two).unwrap();
    assert!(matches!(a.score(), Err(AssociationError::UtageNotUnique(2))));
    let none = record(3, IN_BUDDIES, ScoreGeneration::Deluxe, Some(UtageKind::Miscellaneous));
    let a = AssociatedRecord::annotate(&db, &none).unwrap();
    assert!(matches!(a.score(), Err(AssociationError::UtageNotUnique(0))));
}

#[test]
fn target_entry_by_name_or_idx() {
    let songs = songs();
    let db = SongDatabase::new(&songs).unwrap();
    let idx_map = vec![(ScoreIdx("twin3".to_owned()), icon(3))];
    let unique = entry("A", "x");
    let e = AssociatedEntry::annotate(&db, MaimaiVersion::Buddies, &unique, &idx_map);
    let s = e.score().unwrap();
    assert_eq!(s.score.scores().song().id(), db.songs()[0].id());
    let assoc = e.as_associated().unwrap();
    assert!(std::ptr::eq(assoc.data, &unique));
    // Two songs have the name: the id decides.
    let twin = entry("Twin", "twin3");
    let e = AssociatedEntry::annotate(&db, MaimaiVersion::Buddies, &twin, &idx_map);
    assert_eq!(e.score().unwrap().score.scores().song().id(), db.songs()[2].id());
    let lost = entry("Twin", "other");
    let e = AssociatedEntry::annotate(&db, MaimaiVersion::Buddies, &lost, &idx_map);
    assert!(matches!(e.score(), Err(AssociationError::IdxNotRegistered)));
    assert!(matches!(e.as_associated(), Err(AssociationError::IdxNotRegistered)));
    // Not in the version.
    let e = AssociatedEntry::annotate(&db, MaimaiVersion::Festival, &unique, &idx_map);
    assert!(matches!(e.score(), Err(AssociationError::NotInVersion)));
}

#[test]
fn target_list_and_user_data() {
    let songs = songs();
    let db = SongDatabase::new(&songs).unwrap();
    let idx_map = vec![(ScoreIdx("twin3".to_owned()), icon(3))];
    let good = list(vec![entry("A", "x"), entry("Twin", "twin3")]);
    let bad = list(vec![entry("A", "x"), entry("Twin", "other")]);
    assert!(matches!(
        AssociatedList::annotate(&db, &good, PlayTime::from_naive_seconds(0), &idx_map),
        Err(AssociationError::NoVersion)
    ));
    let l = AssociatedList::annotate(&db, &good, PlayTime::from_naive_seconds(IN_BUDDIES), &idx_map).unwrap();
    assert_eq!(l.target_new().len(), 2);
    let a = l.as_associated().unwrap();
    assert_eq!(a.target_new.len(), 2);
    assert_eq!(a.target_new[1].score.score.scores().song().id(), db.songs()[2].id());
    let l = AssociatedList::annotate(&db, &bad, PlayTime::from_naive_seconds(IN_BUDDIES), &idx_map).unwrap();
    assert!(matches!(l.as_associated(), Err(AssociationError::IdxNotRegistered)));

    let records = vec![
        record(1, IN_BUDDIES, ScoreGeneration::Deluxe, None),
        record(1, IN_BUDDIES, ScoreGeneration::Deluxe, Some(UtageKind::Miscellaneous)),
        record(3, IN_BUDDIES + 60, ScoreGeneration::Deluxe, None),
    ];
    let t = PlayTime::from_naive_seconds(IN_BUDDIES);
    let targets = vec![(t, good.clone())];
    let u = UserData::annotate(&db, &records, &targets, &idx_map).unwrap();
    assert_eq!(u.records().len(), 3);
    let o = u.ordinary_data_associated().unwrap();
    // The utage record is left out.
    assert_eq!(o.ordinary_records.len(), 2);
    assert_eq!(o.ordinary_records[1].record, &records[2]);
    assert_eq!(o.rating_target.len(), 1);

    let with_bad = vec![(t, good.clone()), (t, bad.clone())];
    let u = UserData::annotate(&db, &records, &with_bad, &idx_map).unwrap();
    assert!(matches!(u.ordinary_data_associated(), Err(AssociationError::IdxNotRegistered)));
    let mut with_unknown = records.clone();
    with_unknown.push(record(9, IN_BUDDIES, ScoreGeneration::Deluxe, None));
    assert!(matches!(
        UserData::annotate(&db, &with_unknown, &targets, &idx_map),
        Err(AssociationError::NoSongForIcon)
    ));
    let early = vec![(PlayTime::from_naive_seconds(0), good.clone())];
    assert!(matches!(UserData::annotate(&db, &records, &early, &idx_map), Err(AssociationError::NoVersion)));
    let standard = vec![record(1, IN_BUDDIES, ScoreGeneration::Standard, None)];
    let u = UserData::annotate(&db, &standard, &targets, &idx_map).unwrap();
    assert!(matches!(
        u.ordinary_data_associated(),
        Err(AssociationError::NoGeneration(ScoreGeneration::Standard))
    ));
}

#[test]
fn levels_for_messages() {
    let songs = songs();
    let db = SongDatabase::new(&songs).unwrap();
    let r = record(1, IN_BUDDIES, ScoreGeneration::Deluxe, None);
    let a = AssociatedRecord::annotate(&db, &r).unwrap();
    assert_eq!(known_level(&a), Some(KnownLevel::Constant(ScoreConstant::try_from_u8(130).unwrap())));
    let u = record(1, IN_BUDDIES, ScoreGeneration::Deluxe, Some(UtageKind::Miscellaneous));
    let a = AssociatedRecord::annotate(&db, &u).unwrap();
    assert_eq!(known_level(&a), Some(KnownLevel::Level(ScoreLevel::new(13, false).unwrap())));
    let s = record(1, IN_BUDDIES, ScoreGeneration::Standard, None);
    let a = AssociatedRecord::annotate(&db, &s).unwrap();
    assert_eq!(known_level(&a), None);
}
