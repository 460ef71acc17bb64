use maimai_scraping::maimai::parser::img_src::ImgSrcError;
use maimai_scraping::maimai::parser::play_record::FieldError;
use maimai_scraping::maimai::parser::rating_target::{
    parse_entry, parse_page, EntryFields, TargetDiv, TargetPageError, TargetPart,
};
use maimai_scraping::maimai::parser::record_index::{
    parse_index_entry, parse_record_index, IndexFields, IndexPart, RecordIndexError,
};
use maimai_scraping::maimai::parser::score_list::{
    parse_form, parse_score_list, ScoreFormFields, ScoreGroupFields, ScoreListError, ScorePart,
};
use maimai_scraping::maimai::parser::song_score::ScoreEntryError;
use maimai_scraping::maimai::rating::ScoreLevel;
use maimai_scraping::maimai::schema::latest::{
    AchievementRank, FullComboKind, FullSyncKind, PlayTime, ScoreDifficulty, ScoreGeneration,
};

fn fields(name: &str) -> EntryFields {
    EntryFields {
        difficulty_img: Some(Some("https://maimaidx.jp/maimai-mobile/img/diff_master.png".to_owned())),
        generation_img: Some(Some("https://maimaidx.jp/maimai-mobile/img/music_dx.png".to_owned())),
        song_name: Some(name.to_owned()),
        level: Some("13+".to_owned()),
        achievement: Some("100.5000%".to_owned()),
        idx_input: Some(Some("abc".to_owned())),
    }
}

#[test]
fn target_entries() {
    let e = parse_entry(&fields("Song")).unwrap();
    assert_eq!(e.score_metadata.difficulty, ScoreDifficulty::Master);
    assert_eq!(e.score_metadata.generation, ScoreGeneration::Deluxe);
    assert_eq!(e.song_name.0, "Song");
    assert_eq!(e.level, ScoreLevel::new(13, true).unwrap());
    assert_eq!(e.achievement.get(), 1005000);
    assert_eq!(e.idx.0, "abc");

    let mut f = fields("Song");
    f.difficulty_img = None;
    assert_eq!(parse_entry(&f).unwrap_err(), TargetPageError::Missing(TargetPart::DifficultyImg));
    let mut f = fields("Song");
    f.generation_img = Some(None);
    assert_eq!(parse_entry(&f).unwrap_err(), TargetPageError::GenerationImg(ImgSrcError::NoSrc));
    let mut f = fields("Song");
    f.achievement = Some("102.0000%".to_owned());
    assert_eq!(
        parse_entry(&f).unwrap_err(),
        TargetPageError::Achievement(FieldError::OutOfBounds(1020000))
    );
    let mut f = fields("Song");
    f.idx_input = Some(None);
    assert_eq!(parse_entry(&f).unwrap_err(), TargetPageError::NoIdxValue);
}

#[test]
fn target_page_sections() {
    let divs = vec![
        TargetDiv::Heading,
        TargetDiv::Entry(fields("A")),
        TargetDiv::Entry(fields("B")),
        TargetDiv::Heading,
        TargetDiv::Entry(fields("C")),
        TargetDiv::Heading,
        TargetDiv::Heading,
        TargetDiv::Entry(fields("D")),
        TargetDiv::Other,
    ];
    let list = parse_page(Some(&divs), Some("15012")).unwrap();
    assert_eq!(list.rating.get(), 15012);
    let names = |v: &Vec<maimai_scraping::maimai::parser::rating_target::RatingTargetEntry>| {
        v.iter().map(|e| e.song_name.0.clone()).collect::<Vec<_>>()
    };
    assert_eq!(names(&list.target_new), vec!["A", "B"]);
    assert_eq!(names(&list.target_old), vec!["C"]);
    assert!(list.candidates_new.is_empty());
    assert_eq!(names(&list.candidates_old), vec!["D"]);

    assert_eq!(parse_page(None, Some("1")).unwrap_err(), TargetPageError::Missing(TargetPart::TitleBlock));
    assert_eq!(parse_page(Some(&divs), None).unwrap_err(), TargetPageError::Missing(TargetPart::RatingBlock));
    assert_eq!(parse_page(Some(&divs), Some("70000")).unwrap_err(), TargetPageError::Rating);
    // Only three sections.
    assert_eq!(parse_page(Some(&divs[..6].to_vec()), Some("1")).unwrap_err(), TargetPageError::NoSection);
    // Another block where the third heading should be.
    let mut odd = divs.clone();
    odd[5] = TargetDiv::Other;
    assert_eq!(parse_page(Some(&odd), Some("1")).unwrap_err(), TargetPageError::NotHeading);
    // The first entry that does not read decides.
    let mut bad = divs.clone();
    let mut f = fields("B");
    f.level = None;
    bad[2] = TargetDiv::Entry(f);
    assert_eq!(parse_page(Some(&bad), Some("1")).unwrap_err(), TargetPageError::Missing(TargetPart::Level));
}

#[test]
fn record_index_entries() {
    // With a time stamp (UTC seconds): the Japan time.
    let stamped = IndexFields {
        main_container: true,
        idx_input: Some(Some("3,1694624103".to_owned())),
        play_date: None,
    };
    let (t, idx) = parse_index_entry(&stamped).unwrap();
    assert_eq!(t, PlayTime::from_naive_seconds(1694624103 + 9 * 3600));
    assert_eq!(idx.index(), 3);
    // Without one: the play date of the page.
    let plain = IndexFields {
        main_container: true,
        idx_input: Some(Some("4".to_owned())),
        play_date: Some("2023/09/14 01:55".to_owned()),
    };
    let (t, _) = parse_index_entry(&plain).unwrap();
    assert_eq!(t, PlayTime::from_naive_seconds(1694656500));
    let no_date = IndexFields { play_date: None, ..plain.clone() };
    assert_eq!(parse_index_entry(&no_date).unwrap_err(), RecordIndexError::Missing(IndexPart::PlayDate));
    let no_main = IndexFields { main_container: false, ..plain.clone() };
    assert_eq!(parse_index_entry(&no_main).unwrap_err(), RecordIndexError::Missing(IndexPart::MainContainer));
    assert_eq!(parse_record_index(&vec![stamped.clone(), plain.clone()]).unwrap().len(), 2);
    assert_eq!(
        parse_record_index(&vec![stamped, no_date, no_main]).unwrap_err(),
        RecordIndexError::Missing(IndexPart::PlayDate)
    );
}

fn form(played: bool) -> ScoreFormFields {
    let jp = "https://maimaidx.jp/maimai-mobile/img/";
    ScoreFormFields {
        difficulty_img: Some(Some(format!("{jp}diff_expert.png"))),
        generation_inside: None,
        generation_outside: Some(Some(format!("{jp}music_standard.png"))),
        level: Some("12".to_owned()),
        song_name: Some("Song".to_owned()),
        achievement: if played { Some("97.5000%".to_owned()) } else { None },
        deluxscore: if played { Some(" 1,234 / 2,000 ".to_owned()) } else { None },
        rank_imgs: if played {
            vec![
                Some(format!("{jp}music_icon_fs.png?ver=1.60")),
                Some(format!("{jp}music_icon_ap.png?ver=1.60")),
                Some(format!("{jp}music_icon_s.png?ver=1.60")),
            ]
        } else {
            vec![]
        },
        idx_input: Some(Some("i".to_owned())),
    }
}

#[test]
fn score_list_forms() {
    let e = parse_form(&form(true)).unwrap();
    assert_eq!(e.metadata.generation, ScoreGeneration::Standard);
    assert_eq!(e.metadata.difficulty, ScoreDifficulty::Expert);
    assert_eq!(e.level, ScoreLevel::new(12, false).unwrap());
    let r = e.result.unwrap();
    assert_eq!(r.achievement.get(), 975000);
    assert_eq!((r.deluxscore.value(), r.deluxscore.max()), (1234, 2000));
    assert_eq!((r.full_combo_kind, r.full_sync_kind, r.rank), (FullComboKind::AllPerfect, FullSyncKind::FullSync, AchievementRank::S));
    assert!(parse_form(&form(false)).unwrap().result.is_none());

    let mut f = form(true);
    f.generation_inside = Some("https://maimaidx.jp/maimai-mobile/img/music_dx.png".to_owned());
    assert_eq!(parse_form(&f).unwrap_err(), ScoreListError::Entry(ScoreEntryError::GenerationImage));
    let mut f = form(true);
    f.generation_outside = None;
    assert_eq!(parse_form(&f).unwrap_err(), ScoreListError::Missing(ScorePart::GenerationSibling));
    let mut f = form(true);
    f.deluxscore = None;
    assert_eq!(parse_form(&f).unwrap_err(), ScoreListError::Entry(ScoreEntryError::InconsistentResult));
    let mut f = form(true);
    f.rank_imgs.pop();
    assert_eq!(parse_form(&f).unwrap_err(), ScoreListError::Entry(ScoreEntryError::ImageCount(2)));

    let groups = vec![
        ScoreGroupFields { label: "POPS".to_owned(), forms: vec![form(true), form(false)] },
        ScoreGroupFields { label: "GAME".to_owned(), forms: vec![] },
    ];
    let v = parse_score_list(&groups).unwrap();
    assert_eq!(v.len(), 2);
    assert_eq!(v[0].label, "POPS");
    assert_eq!(v[0].entries.len(), 2);
    let mut bad = groups.clone();
    bad[1].forms.push(ScoreFormFields { level: None, ..form(false) });
    assert_eq!(parse_score_list(&bad).unwrap_err(), ScoreListError::Missing(ScorePart::Level));
}
