use maimai_scraping::maimai::parser::img_src::{split_img_src, ImgSrcError};
use maimai_scraping::maimai::parser::play_record::{
    parse_achievement_rank, parse_achievement_txt, parse_battle_kind_img, parse_deluxscore,
    parse_delta_sign, parse_dxstar, parse_full_combo_img, parse_full_sync_img,
    parse_integer_with_camma, parse_matching_rank_img, parse_play_date, parse_playlog_diff,
    parse_playlog_vs_result, parse_rating_color, parse_rating_delta, parse_score_generation_img,
    parse_track_index, parse_utage_kind, parse_value_with_max, FieldError,
};
use maimai_scraping::maimai::parser::song_score;
use maimai_scraping::maimai::schema::latest::{
    AchievementRank, BattleKind, BattleWinOrLose, FullComboKind, FullSyncKind, RatingBorderColor,
    RatingDeltaSign, ScoreDifficulty, ScoreGeneration, UtageKind, UtageKindRaw,
};

const JP: &str = "https://maimaidx.jp/maimai-mobile/img/";
const ENG: &str = "https://maimaidx-eng.com/maimai-mobile/img/";

fn src(site: &str, rest: &str) -> String {
    format!("{site}{rest}")
}

#[test]
fn split_addresses() {
    let s = src(JP, "playlog/sss.png?ver=1.15");
    assert_eq!(split_img_src(&s), Some((false, "playlog/sss", Some("1.15"))));
    let s = src(ENG, "music_dx.png");
    assert_eq!(split_img_src(&s), Some((true, "music_dx", None)));
    assert_eq!(split_img_src("https://example.com/img/a.png"), None);
    assert_eq!(split_img_src(&src(JP, "playlog/sss.jpg")), None);
    assert_eq!(split_img_src(&src(JP, "playlog/sss")), None);
    assert_eq!(split_img_src(&src(JP, "a.png?v=1")), None);
}

#[test]
fn achievement_rank_images() {
    let ok = |s: String| parse_achievement_rank(Some(&s));
    assert_eq!(ok(src(JP, "playlog/sssplus.png?ver=1.15")), Ok(AchievementRank::SSSPlus));
    assert_eq!(ok(src(JP, "playlog/s.png?ver=1.50")), Ok(AchievementRank::S));
    assert_eq!(ok(src(JP, "playlog/d.png?ver=1.30")), Ok(AchievementRank::D));
    assert_eq!(ok(src(ENG, "playlog/aaa.png?ver=1.35")), Ok(AchievementRank::AAA));
    let bad = src(ENG, "playlog/aaa.png?ver=1.40");
    assert_eq!(ok(bad.clone()), Err(ImgSrcError::UnknownSrc(bad)));
    let bad = src(JP, "playlog/sss.png");
    assert_eq!(ok(bad.clone()), Err(ImgSrcError::UnknownSrc(bad)));
    assert_eq!(parse_achievement_rank(None), Err(ImgSrcError::NoSrc));
}

#[test]
fn result_images() {
    assert_eq!(
        parse_full_combo_img(Some(&src(JP, "playlog/applus.png?ver=1.45"))),
        Ok(FullComboKind::AllPerfectPlus)
    );
    assert_eq!(
        parse_full_combo_img(Some(&src(JP, "playlog/fc_dummy.png?ver=1.17"))),
        Ok(FullComboKind::Nothing)
    );
    assert_eq!(
        parse_full_sync_img(Some(&src(JP, "playlog/fs_dummy.png?ver=1.35"))),
        Ok(FullSyncKind::Nothing)
    );
    assert!(parse_full_sync_img(Some(&src(JP, "playlog/fs_dummy.png?ver=1.40"))).is_err());
    assert_eq!(
        parse_full_sync_img(Some(&src(JP, "playlog/sync.png?ver=1.40"))),
        Ok(FullSyncKind::SyncPlay)
    );
    assert!(parse_full_sync_img(Some(&src(JP, "playlog/sync.png?ver=1.35"))).is_err());
    assert_eq!(
        parse_full_sync_img(Some(&src(ENG, "playlog/sync_dummy.png?ver=1.35"))),
        Ok(FullSyncKind::Nothing)
    );
    assert_eq!(
        parse_full_sync_img(Some(&src(ENG, "playlog/fsdplus.png?ver=1.35"))),
        Ok(FullSyncKind::FullSyncDxPlus)
    );
    assert_eq!(parse_dxstar(Some(&src(JP, "playlog/dxstar_3.png"))).unwrap().get(), 3);
    assert!(parse_dxstar(Some(&src(JP, "playlog/dxstar_6.png"))).is_err());
    assert_eq!(
        parse_matching_rank_img(Some(&src(ENG, "playlog/4th.png"))).unwrap().get(),
        4
    );
    assert_eq!(
        parse_delta_sign(Some(&src(JP, "playlog/rating_keep.png"))),
        Ok(RatingDeltaSign::Keep)
    );
    assert_eq!(
        parse_playlog_vs_result(Some(&src(JP, "playlog/lose.png"))),
        Ok(BattleWinOrLose::Lose)
    );
    assert_eq!(
        parse_battle_kind_img(Some(&src(ENG, "playlog/boss.png"))),
        Ok(BattleKind::Promotion)
    );
    assert_eq!(
        parse_score_generation_img(Some(&src(JP, "music_standard.png"))),
        Ok(ScoreGeneration::Standard)
    );
    assert_eq!(
        parse_playlog_diff(Some(&src(ENG, "diff_remaster.png"))),
        Ok(ScoreDifficulty::ReMaster)
    );
    assert_eq!(parse_playlog_diff(None), Err(ImgSrcError::NoSrc));
}

#[test]
fn rating_frames() {
    assert_eq!(parse_rating_color(Some(&src(JP, "rating_base_gold.png"))), Ok(RatingBorderColor::Gold));
    assert!(parse_rating_color(Some(&src(JP, "rating_base_platinum.png"))).is_err());
    assert_eq!(
        parse_rating_color(Some(&src(JP, "rating_base_platinum.png?ver=1.17"))),
        Ok(RatingBorderColor::Platinum)
    );
    assert!(parse_rating_color(Some(&src(JP, "rating_base_gold.png?ver=1.15"))).is_err());
    assert!(parse_rating_color(Some(&src(ENG, "rating_base_gold.png"))).is_err());
    assert_eq!(
        parse_rating_color(Some(&src(ENG, "rating_base_rainbow.png?ver=1.35"))),
        Ok(RatingBorderColor::Rainbow)
    );
}

#[test]
fn score_list_icons() {
    assert_eq!(
        song_score::parse_achievement_rank(Some(&src(JP, "music_icon_sssp.png?ver=1.60"))),
        Ok(AchievementRank::SSSPlus)
    );
    assert!(song_score::parse_achievement_rank(Some(&src(ENG, "music_icon_sssp.png?ver=1.60")))
        .is_err());
    assert_eq!(
        song_score::parse_full_combo_img(Some(&src(JP, "music_icon_back.png?ver=1.35"))),
        Ok(FullComboKind::Nothing)
    );
    assert_eq!(
        song_score::parse_full_sync_img(Some(&src(JP, "music_icon_sync.png?ver=1.55"))),
        Ok(FullSyncKind::SyncPlay)
    );
    assert!(song_score::parse_full_sync_img(Some(&src(JP, "music_icon_sync.png?ver=1.35")))
        .is_err());
}

#[test]
fn achievement_texts() {
    assert_eq!(parse_achievement_txt("100.5000%").unwrap().get(), 1005000);
    assert_eq!(parse_achievement_txt("0.0000%").unwrap().get(), 0);
    assert_eq!(parse_achievement_txt("97.1234%").unwrap().get(), 971234);
    assert_eq!(parse_achievement_txt("101.0000%").unwrap().get(), 1010000);
    assert_eq!(parse_achievement_txt("101.0001%"), Err(FieldError::OutOfBounds(1010001)));
    assert_eq!(parse_achievement_txt("999.9999%"), Err(FieldError::OutOfBounds(9999999)));
    assert_eq!(parse_achievement_txt("1000.0000%"), Err(FieldError::Format));
    assert_eq!(parse_achievement_txt("100.500%"), Err(FieldError::Format));
    assert_eq!(parse_achievement_txt("100.5000"), Err(FieldError::Format));
    assert_eq!(parse_achievement_txt("10a.5000%"), Err(FieldError::Format));
}

#[test]
fn numbers_with_commas() {
    assert_eq!(parse_integer_with_camma("1,234"), Some(1234));
    assert_eq!(parse_integer_with_camma("+1,000"), Some(1000));
    assert_eq!(parse_integer_with_camma(",,"), None);
    assert_eq!(parse_integer_with_camma("4,294,967,295"), Some(u32::MAX));
    assert_eq!(parse_integer_with_camma("4,294,967,296"), None);
}

#[test]
fn ratios() {
    let v = parse_deluxscore("  1,234 / 2,000\n").unwrap();
    assert_eq!((v.value(), v.max()), (1234, 2000));
    assert_eq!(parse_deluxscore("3 / 2"), Err(FieldError::ValueAboveMax(3, 2)));
    assert_eq!(parse_deluxscore("3/2"), Err(FieldError::Format));
    assert_eq!(parse_deluxscore(", / 2"), Err(FieldError::Number));
    let v = parse_value_with_max("12/345").unwrap();
    assert_eq!((v.value(), v.max()), (12, 345));
    assert_eq!(parse_value_with_max("12 / 345"), Err(FieldError::Format));
    assert_eq!(parse_value_with_max("5/4"), Err(FieldError::ValueAboveMax(5, 4)));
}

#[test]
fn rating_deltas() {
    assert_eq!(parse_rating_delta("(+12)"), Ok(12));
    assert_eq!(parse_rating_delta("(-7)"), Ok(-7));
    assert_eq!(parse_rating_delta("(-32768)"), Ok(i16::MIN));
    assert_eq!(parse_rating_delta("(+32768)"), Err(FieldError::Number));
    assert_eq!(parse_rating_delta("(12)"), Err(FieldError::Format));
    assert_eq!(parse_rating_delta("(+)"), Err(FieldError::Format));
}

#[test]
fn track_indices() {
    assert_eq!(parse_track_index("TRACK 01").unwrap().get(), 1);
    assert_eq!(parse_track_index("xx TRACK 04 TRACK 02").unwrap().get(), 4);
    assert_eq!(parse_track_index("TRACK 1").unwrap_err(), FieldError::Format);
}

#[test]
fn play_dates() {
    let t = parse_play_date("2023/09/14 01:55").unwrap();
    let expected = chrono::NaiveDate::from_ymd_opt(2023, 9, 14)
        .unwrap()
        .and_hms_opt(1, 55, 0)
        .unwrap()
        .and_utc()
        .timestamp();
    assert_eq!(t.get(), expected);
    assert_eq!(parse_play_date("2023-09-14 01:55"), Err(FieldError::Format));
}

#[test]
fn utage_kinds() {
    assert_eq!(parse_utage_kind("光"), UtageKind::AllBreak);
    assert_eq!(parse_utage_kind("狂"), UtageKind::Insane);
    assert_eq!(parse_utage_kind("星"), UtageKind::Slides);
    assert_eq!(parse_utage_kind("謎"), UtageKind::Raw(UtageKindRaw("謎".to_owned())));
    assert_eq!(parse_utage_kind("光光"), UtageKind::Raw(UtageKindRaw("光光".to_owned())));
}
