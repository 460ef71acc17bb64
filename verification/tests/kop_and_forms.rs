use maimai_scraping::cookie_store::{AimeIdx, CookieStore, Credentials, Password, UserId, UserName};
use maimai_scraping::maimai::parser::aime_selection::{
    parse_aime_block, parse_paid_confirmation, AimeParseError,
};
use maimai_scraping::maimai::parser::img_src::ImgSrcError;
use maimai_scraping::maimai::parser::kop_ranking::{
    first_rank_mismatch, parse_as_of, parse_rank_digit, rank_from_digits, AchievementSum, Entry,
};
use maimai_scraping::maimai::parser::play_record::FieldError;
use maimai_scraping::maimai::parser::song_score::{
    combine_score_result, parse_score_generation, parse_score_ranks, ScoreEntryError,
};
use maimai_scraping::maimai::schema::latest::{
    AchievementRank, AchievementValue, FullComboKind, FullSyncKind, ScoreGeneration, UserName as
    PlayerName, ValueWithMax,
};

#[test]
fn achievement_sums() {
    assert_eq!(AchievementSum::try_from_u32(3030000).unwrap().get(), 3030000);
    assert!(AchievementSum::try_from_u32(3030001).is_err());
    assert_eq!(AchievementSum::try_from_u32(3005).unwrap().to_string(), "0.3005%");
    assert_eq!(AchievementSum::try_from_u32(3001234).unwrap().to_string(), "300.1234%");
}

#[test]
fn rank_digits() {
    let jp = "https://maimaidx.jp/maimai-mobile/img/ranking/";
    assert_eq!(parse_rank_digit(Some(&format!("{jp}rank_first.png"))), Ok(1));
    assert_eq!(parse_rank_digit(Some(&format!("{jp}rank_num_7.png?ver=1.45"))), Ok(7));
    assert_eq!(parse_rank_digit(Some(&format!("{jp}rank_num_7.png?ver=1x45"))), Ok(7));
    assert!(parse_rank_digit(Some(&format!("{jp}rank_num_7.png?ver=2.45"))).is_err());
    assert!(parse_rank_digit(Some(&format!("{jp}rank_num_x.png"))).is_err());
    assert!(parse_rank_digit(Some(
        "https://maimaidx-eng.com/maimai-mobile/img/ranking/rank_num_1.png"
    ))
    .is_err());
    assert_eq!(parse_rank_digit(None), Err(ImgSrcError::NoSrc));
    // Least significant digit first.
    assert_eq!(rank_from_digits(&[3, 2, 1]), 123);
    assert_eq!(rank_from_digits(&[]), 0);
}

#[test]
fn ranking_order_and_time() {
    let e = |rank| Entry {
        rank,
        player_name: PlayerName("p".to_owned()),
        play_time: 0,
        achievement: AchievementSum::try_from_u32(0).unwrap(),
        deluxscore: 0,
    };
    assert_eq!(first_rank_mismatch(&vec![e(1), e(2), e(3)]), None);
    assert_eq!(first_rank_mismatch(&vec![e(1), e(3)]), Some(1));
    let t = parse_as_of("2024/01/02 03:04 更新").unwrap();
    let expected = chrono::NaiveDate::from_ymd_opt(2024, 1, 2)
        .unwrap()
        .and_hms_opt(3, 4, 0)
        .unwrap()
        .and_utc()
        .timestamp();
    assert_eq!(t, expected);
    assert_eq!(parse_as_of("2024/01/02 03:04"), Err(FieldError::Format));
    assert_eq!(parse_as_of("2024-01-02 03:04 更新"), Err(FieldError::Format));
}

#[test]
fn aime_pages() {
    let classes = vec!["see_through_block".to_owned(), "charge_aime_block".to_owned()];
    let e = parse_aime_block(Some("2"), "name".to_owned(), &classes).unwrap();
    assert_eq!(e.idx, AimeIdx(2));
    assert!(e.paid);
    let e = parse_aime_block(Some("0"), "n".to_owned(), &vec![]).unwrap();
    assert!(!e.paid);
    assert_eq!(
        parse_aime_block(Some("256"), "n".to_owned(), &vec![]).unwrap_err(),
        AimeParseError::BadIdx
    );
    assert_eq!(parse_aime_block(None, "n".to_owned(), &vec![]).unwrap_err(), AimeParseError::NoIdx);
    let f = parse_paid_confirmation(Some("123"), Some("tok")).unwrap();
    assert_eq!((f.idx.as_str(), f.token.as_str(), f.change), ("123", "tok", ""));
    assert_eq!(parse_paid_confirmation(Some("1"), None).unwrap_err(), AimeParseError::NoToken);
}

#[test]
fn score_list_entries() {
    assert_eq!(
        parse_score_generation(Some("https://x/music_dx.png"), None),
        Ok(ScoreGeneration::Deluxe)
    );
    assert_eq!(
        parse_score_generation(None, Some("https://x/music_standard.png")),
        Ok(ScoreGeneration::Standard)
    );
    assert_eq!(
        parse_score_generation(Some("a"), Some("b")),
        Err(ScoreEntryError::GenerationImage)
    );
    assert_eq!(parse_score_generation(None, None), Err(ScoreEntryError::GenerationImage));
    assert_eq!(
        parse_score_generation(Some("x.png"), None),
        Err(ScoreEntryError::UnknownGeneration("x.png".to_owned()))
    );
    let jp = "https://maimaidx.jp/maimai-mobile/img/";
    let srcs = vec![
        Some(format!("{jp}music_icon_fs.png?ver=1.60")),
        Some(format!("{jp}music_icon_ap.png?ver=1.60")),
        Some(format!("{jp}music_icon_s.png?ver=1.60")),
    ];
    let ranks = parse_score_ranks(&srcs).unwrap().unwrap();
    assert_eq!(ranks, (FullComboKind::AllPerfect, FullSyncKind::FullSync, AchievementRank::S));
    assert_eq!(parse_score_ranks(&vec![]), Ok(None));
    assert_eq!(parse_score_ranks(&vec![None]), Err(ScoreEntryError::ImageCount(1)));
    let bad = vec![srcs[0].clone(), None, srcs[2].clone()];
    assert_eq!(parse_score_ranks(&bad), Err(ScoreEntryError::Image(ImgSrcError::NoSrc)));
    let a = AchievementValue::try_from_u32(975000).unwrap();
    let d = ValueWithMax::new(1, 2).unwrap();
    let r = combine_score_result(Some(a), Some(d), Some(ranks)).unwrap().unwrap();
    assert_eq!(r.rank, AchievementRank::S);
    assert_eq!(combine_score_result(None, None, None), Ok(None));
    assert_eq!(
        combine_score_result(Some(a), None, None),
        Err(ScoreEntryError::InconsistentResult)
    );
}

#[test]
fn cookie_store_values() {
    let store = CookieStore::default();
    assert_eq!(store.user_id.0, "");
    let c = Credentials::new(
        UserName::from("u".to_owned()),
        Password::from("p".to_owned()),
        Some(AimeIdx::from(1)),
    );
    assert_eq!(c.user_name.0, "u");
    assert_eq!(c.aime_idx, Some(AimeIdx(1)));
    assert_eq!(UserId::from("id".to_owned()).0, "id");
}
