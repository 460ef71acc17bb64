use maimai_scraping::maimai::rating::{ScoreConstant, ScoreLevel};
use maimai_scraping::maimai::schema::latest::{
    AchievementRank, AchievementResult, AchievementValue, ComboResult, DeluxscoreRank,
    DeluxscoreResult, FullComboKind, Idx, JudgeCount, JudgeCountWithCP, JudgeCountWithoutCP,
    JudgeResult, LifeResult, PlayRecord, PlayTime, PlayedAt, RatingBorderColor, RatingDeltaSign,
    RatingResult, RatingValue, ScoreDifficulty, ScoreGeneration, ScoreMetadata, SongIcon,
    SongMetadata, SongName, TourMember, TourMemberIcon, TourMemberList, TrackIndex,
    UtageKind, UtageMetadata, ValueWithMax,
};
use maimai_scraping::watcher::describe_record::{
    compose_message, describe_score_kind, make_message, message_defined_check, rating_color,
    total_judgement_count, KnownLevel,
};
use maimai_scraping::watcher::misc::{recent_message, TooManyRequested};

fn wcp(a: u32) -> JudgeCountWithCP {
    JudgeCountWithCP {
        critical_perfect: a,
        others: JudgeCountWithoutCP { perfect: 0, great: 0, good: 0, miss: 0 },
    }
}

fn record(delta: i16, rating: u16, color: RatingBorderColor, life: LifeResult) -> PlayRecord {
    let judge = JudgeResult {
        fast: 0,
        late: 0,
        tap: JudgeCount::JudgeCountWithCP(wcp(100)),
        hold: JudgeCount::Nothing,
        slide: JudgeCount::Nothing,
        touch: JudgeCount::Nothing,
        break_: wcp(10),
    };
    let member = TourMember { star: 1, icon: TourMemberIcon("i".to_owned()), level: 1 };
    PlayRecord {
        played_at: PlayedAt {
            idx: Idx::new(0, None).unwrap(),
            time: PlayTime::from_naive_seconds(1694656500),
            place: None,
            track: TrackIndex::try_from_u8(1).unwrap(),
        },
        song_metadata: SongMetadata {
            name: SongName("Song".to_owned()),
            cover_art: SongIcon("x".to_owned()),
        },
        score_metadata: ScoreMetadata {
            generation: ScoreGeneration::Deluxe,
            difficulty: ScoreDifficulty::Master,
        },
        utage_metadata: None,
        cleared: true,
        achievement_result: AchievementResult {
            value: AchievementValue::try_from_u32(1005000).unwrap(),
            new_record: true,
            rank: AchievementRank::SSSPlus,
        },
        deluxscore_result: DeluxscoreResult {
            score: ValueWithMax::new(300, 330).unwrap(),
            rank: DeluxscoreRank::try_from_u8(3).unwrap(),
            new_record: false,
        },
        combo_result: ComboResult {
            full_combo_kind: FullComboKind::AllPerfectPlus,
            combo: ValueWithMax::new(110, 110).unwrap(),
        },
        battle_result: None,
        matching_result: None,
        life_result: life,
        tour_members: TourMemberList::try_from_vec(vec![member]).unwrap(),
        rating_result: RatingResult {
            rating: RatingValue::from_u16(rating),
            delta,
            delta_sign: RatingDeltaSign::Up,
            border_color: color,
        },
        judge_result: judge,
    }
}

#[test]
fn message_with_known_constant() {
    let r = record(0, 15000, RatingBorderColor::Rainbow, LifeResult::Nothing);
    let level = Some(KnownLevel::Constant(ScoreConstant::try_from_u8(137).unwrap()));
    // 13.7 * 100.5% * 22.4 = 308.41...
    assert_eq!(
        compose_message("T", &r, level),
        "T　Song (DX Mas Lv.13.7)　SSS+(100.5000% :new:) 308.41　AP+\n"
    );
    assert_eq!(
        make_message(&r, level),
        "2023-09-14 01:55:00　Song (DX Mas Lv.13.7)　SSS+(100.5000% :new:) 308.41　AP+\n"
    );
}

#[test]
fn message_with_rating_change_and_life() {
    let r = record(
        12,
        15002,
        RatingBorderColor::Rainbow,
        LifeResult::CourseResult(ValueWithMax::new(812, 1000).unwrap()),
    );
    let level = Some(KnownLevel::Level(ScoreLevel::new(13, true).unwrap()));
    assert_eq!(
        compose_message("T", &r, level),
        "T　Song (DX Mas Lv.13+)　SSS+(100.5000% :new:) 　AP+\n\
         Rating: 14990 => 15002 (+12)　Color changed to Rainbow!\n\
         Course life: 812/1000\n"
    );
    let mut r = record(3, 14000, RatingBorderColor::Gold, LifeResult::Nothing);
    r.utage_metadata = Some(UtageMetadata { kind: UtageKind::AllBreak, buddy: false });
    r.score_metadata.difficulty = ScoreDifficulty::Utage;
    r.played_at.idx = Idx::new(3, Some(1694624103)).unwrap();
    assert_eq!(
        make_message(&r, None),
        "2023-09-14 01:55:03　Song (Utg Lv.??)　SSS+(100.5000% :new:) 　AP+\n\
         Rating: 13997 => 14000 (+3)　Color changed to Gold!\n"
    );
}

#[test]
fn score_kinds_and_colors() {
    let m = ScoreMetadata {
        generation: ScoreGeneration::Standard,
        difficulty: ScoreDifficulty::ReMaster,
    };
    assert_eq!(describe_score_kind(m), "Std ReMas");
    assert_eq!(rating_color(999), RatingBorderColor::Normal);
    assert_eq!(rating_color(1000), RatingBorderColor::Blue);
    assert_eq!(rating_color(14499), RatingBorderColor::Gold);
    assert_eq!(rating_color(14500), RatingBorderColor::Platinum);
    assert_eq!(rating_color(15000), RatingBorderColor::Rainbow);
}

#[test]
fn judgement_totals_and_checks() {
    let mut r = record(0, 15000, RatingBorderColor::Rainbow, LifeResult::Nothing);
    assert_eq!(total_judgement_count(r.judge_result), 0);
    r.judge_result.tap = JudgeCount::JudgeCountWithoutCP(JudgeCountWithoutCP {
        perfect: 3,
        great: 2,
        good: 1,
        miss: 4,
    });
    r.judge_result.break_.others.great = 5;
    assert_eq!(total_judgement_count(r.judge_result), 15);
    assert!(message_defined_check(&r));
    // Taking the change back from the rating would leave the 16-bit range.
    let low = record(1, 32768, RatingBorderColor::Rainbow, LifeResult::Nothing);
    assert!(!message_defined_check(&low));
    let mut huge = record(0, 15000, RatingBorderColor::Rainbow, LifeResult::Nothing);
    huge.judge_result.break_.others.miss = u32::MAX;
    huge.judge_result.break_.others.good = 1;
    assert!(!message_defined_check(&huge));
}

#[test]
fn recent_messages() {
    let a = record(0, 15000, RatingBorderColor::Rainbow, LifeResult::Nothing);
    let mut b = record(0, 15000, RatingBorderColor::Rainbow, LifeResult::Nothing);
    b.song_metadata.name = SongName("Other".to_owned());
    let records = vec![a.clone(), b.clone()];
    let levels = vec![None, Some(KnownLevel::Level(ScoreLevel::new(13, false).unwrap()))];
    let last = "2023-09-14 01:55:00　Other (DX Mas Lv.13)　SSS+(100.5000% :new:) 　AP+\n";
    assert_eq!(recent_message(&records, &levels, 1), Ok(last.to_owned()));
    let both = recent_message(&records, &levels, 5).unwrap();
    assert_eq!(
        both,
        format!("2023-09-14 01:55:00　Song (DX Mas Lv.?)　SSS+(100.5000% :new:) 　AP+\n\n{last}")
    );
    assert_eq!(recent_message(&records, &levels, 0), Ok(String::new()));
    assert_eq!(recent_message(&records, &levels, 101), Err(TooManyRequested));
}
