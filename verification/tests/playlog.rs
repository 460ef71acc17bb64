use maimai_scraping::maimai::parser::play_record::{first_track_number, parse_track_index, FieldError};
use maimai_scraping::maimai::parser::playlog::{
    battle_result, break_counts, checked_place, cover_art, matching_result, parse_chara,
    parse_cleared, parse_fast_late, parse_judge_count_row, parse_life_block, parse_max_combo_sync,
    parse_other_players, record_generation, required_max_combo, tour_members, CharaFields,
    MatchingSpan, PlaylogError, PlaylogPart,
};
use maimai_scraping::maimai::schema::latest::{
    AchievementValue, BattleKind, BattleOpponent, BattleWinOrLose, FullSyncKind, JudgeCount,
    JudgeCountWithCP, JudgeCountWithoutCP, LifeResult, MatchingRank, PlaceName, RatingBorderColor,
    RatingValue, ScoreDifficulty, ScoreGeneration, UserName, ValueWithMax,
};

fn cells(v: &[&str]) -> Vec<String> {
    v.iter().map(|s| s.to_string()).collect()
}

#[test]
fn judge_rows() {
    assert_eq!(parse_judge_count_row(&cells(&["", "　", "", "", ""])), Ok(JudgeCount::Nothing));
    let others = JudgeCountWithoutCP { perfect: 2, great: 3, good: 4, miss: 5 };
    assert_eq!(
        parse_judge_count_row(&cells(&["1", "2", "3", "4", "5"])),
        Ok(JudgeCount::JudgeCountWithCP(JudgeCountWithCP { critical_perfect: 1, others }))
    );
    assert_eq!(
        parse_judge_count_row(&cells(&["", "2", "3", "4", "5"])),
        Ok(JudgeCount::JudgeCountWithoutCP(others))
    );
    assert_eq!(parse_judge_count_row(&cells(&["1", "", "3", "4", "5"])), Err(PlaylogError::UnexpectedRow));
    assert_eq!(parse_judge_count_row(&cells(&["1", "2", "3", "4"])), Err(PlaylogError::UnexpectedRow));
    assert_eq!(
        parse_judge_count_row(&cells(&["x", "2", "3", "4", "5"])),
        Err(PlaylogError::Format(PlaylogPart::JudgeCell))
    );
    assert_eq!(break_counts(JudgeCount::Nothing), Err(PlaylogError::BreakWithoutCriticalPerfect));
}

#[test]
fn counts_combo_and_life() {
    assert_eq!(parse_fast_late(Some("12"), Some("3")), Ok((12, 3)));
    assert_eq!(parse_fast_late(Some("12"), None), Err(PlaylogError::Missing(PlaylogPart::Late)));
    assert_eq!(parse_fast_late(Some("-1"), Some("3")), Err(PlaylogError::Format(PlaylogPart::Fast)));
    assert_eq!(parse_max_combo_sync(Some("―"), PlaylogPart::MaxSync), Ok(None));
    let v = parse_max_combo_sync(Some("120/130"), PlaylogPart::MaxCombo).unwrap().unwrap();
    assert_eq!((v.value(), v.max()), (120, 130));
    assert_eq!(
        parse_max_combo_sync(Some("131/130"), PlaylogPart::MaxCombo),
        Err(PlaylogError::Field(PlaylogPart::MaxCombo, FieldError::ValueAboveMax(131, 130)))
    );
    assert_eq!(required_max_combo(None), Err(PlaylogError::MaxComboHyphen));
    let course = vec![
        Some("https://maimaidx.jp/maimai-mobile/img/course/icon_course_life.png".to_owned()),
        Some("https://maimaidx.jp/maimai-mobile/img/course/icon_course.png".to_owned()),
    ];
    match parse_life_block("812/1000", &course) {
        Ok(LifeResult::CourseResult(v)) => assert_eq!((v.value(), v.max()), (812, 1000)),
        other => panic!("unexpected {other:?}"),
    }
    let challenge = vec![
        Some("https://maimaidx-eng.com/maimai-mobile/img/icon_life.png".to_owned()),
        Some("https://maimaidx-eng.com/maimai-mobile/img/icon_perfectchallenge.png".to_owned()),
    ];
    assert!(matches!(parse_life_block("3/5", &challenge), Ok(LifeResult::PerfectChallengeResult(_))));
    assert_eq!(parse_life_block("3/5", &vec![]), Err(PlaylogError::UnexpectedLifeIcons));
}

#[test]
fn other_players_and_members() {
    let span = |classes: &[&str], name: Option<&str>| MatchingSpan {
        classes: classes.iter().map(|s| s.to_string()).collect(),
        name: name.map(str::to_owned),
    };
    let spans = vec![
        span(&["p_r", "playlog_master_container"], Some("A")),
        span(&["gray_block"], None),
        span(&["playlog_basic_container"], Some("B")),
    ];
    let list = parse_other_players(&spans).unwrap();
    let players = list.as_slice();
    assert_eq!(players.len(), 2);
    assert_eq!(players[0].difficulty, ScoreDifficulty::Master);
    assert_eq!(players[1].user_name.0, "B");
    assert_eq!(
        parse_other_players(&vec![span(&["x"], Some("A"))]),
        Err(PlaylogError::Missing(PlaylogPart::MatchingClass))
    );
    assert_eq!(parse_other_players(&vec![span(&["gray_block"], None)]), Err(PlaylogError::OtherPlayerCount(0)));

    let chara = |img: Option<Option<&str>>, star: &str| CharaFields {
        img: img.map(|s| s.map(str::to_owned)),
        star: Some(star.to_owned()),
        level: Some("Lv12".to_owned()),
    };
    let m = parse_chara(&chara(Some(Some("https://example.com/c.png")), "×3")).unwrap().unwrap();
    assert_eq!((m.icon.0.as_str(), m.star, m.level), ("https://example.com/c.png", 3, 12));
    assert_eq!(parse_chara(&chara(None, "×3")), Ok(None));
    assert_eq!(
        parse_chara(&chara(Some(Some("https://example.com/c.png")), "3")),
        Err(PlaylogError::Format(PlaylogPart::CharaStar))
    );
    let members = tour_members(&vec![
        chara(None, "×1"),
        chara(Some(Some("https://example.com/a.png")), "×1"),
    ])
    .unwrap();
    assert_eq!(members.as_slice().len(), 1);
    assert_eq!(tour_members(&vec![chara(None, "×1")]), Err(PlaylogError::TourMemberCount(0)));
}

#[test]
fn record_decisions() {
    assert_eq!(parse_cleared(None), Ok(false));
    assert_eq!(parse_cleared(Some(Some("https://maimaidx.jp/maimai-mobile/img/playlog/clear.png"))), Ok(true));
    assert_eq!(parse_cleared(Some(Some("x"))), Err(PlaylogError::Format(PlaylogPart::ClearedImg)));
    assert_eq!(record_generation(ScoreDifficulty::Utage, None), Ok(ScoreGeneration::Deluxe));
    assert_eq!(record_generation(ScoreDifficulty::Master, None), Err(PlaylogError::NoGeneration));
    assert_eq!(checked_place(true, None), Err(PlaylogError::NoPlace));
    assert_eq!(checked_place(false, None), Ok(None));
    assert_eq!(checked_place(true, Some(PlaceName("P".to_owned()))), Ok(Some(PlaceName("P".to_owned()))));
    let opponent = BattleOpponent {
        user_name: UserName("R".to_owned()),
        achievement_value: AchievementValue::try_from_u32(1000000).unwrap(),
        rating: RatingValue::from_u16(15000),
        border_color: RatingBorderColor::Rainbow,
    };
    let b = battle_result(Some(BattleKind::VsFriend), Some(BattleWinOrLose::Win), Some((BattleKind::VsFriend, opponent.clone())))
        .unwrap()
        .unwrap();
    assert_eq!(b.win_or_lose, BattleWinOrLose::Win);
    assert_eq!(
        battle_result(Some(BattleKind::Promotion), Some(BattleWinOrLose::Win), Some((BattleKind::VsFriend, opponent))),
        Err(PlaylogError::InconsistentBattle)
    );
    assert_eq!(battle_result(None, None, None), Ok(None));
    assert_eq!(matching_result(FullSyncKind::Nothing, None, None, None), Ok(None));
    assert_eq!(matching_result(FullSyncKind::FullSync, None, None, None), Err(PlaylogError::InconsistentMatching));
    assert_eq!(
        matching_result(FullSyncKind::Nothing, Some(ValueWithMax::new(1, 2).unwrap()), None, Some(MatchingRank::try_from_u8(1).unwrap())),
        Err(PlaylogError::InconsistentMatching)
    );
    assert_eq!(cover_art("https://maimaidx.jp/maimai-mobile/img/Music/0123.png").unwrap().0, "https://maimaidx.jp/maimai-mobile/img/Music/0123.png");
    assert_eq!(cover_art("no address"), Err(PlaylogError::Format(PlaylogPart::CoverArt)));
    assert_eq!(first_track_number("TRACK 03"), Some(3));
    assert_eq!(first_track_number("TRACK 3"), None);
    assert_eq!(parse_track_index("TRACK 02").map(|t| t.get()), Ok(2));
}
