use maimai_scraping::maimai::parser::play_record_page::{parse_play_record, PlayRecordError, RecordPart};
use maimai_scraping::maimai::parser::rating_target::{parse_rating_target_page, TargetPageError, TargetPart};
use maimai_scraping::maimai::parser::record_index::{parse_record_index_page, IndexPart, RecordIndexError};
use maimai_scraping::maimai::parser::score_list::{parse_score_list_page, ScoreListError, ScorePart};
use maimai_scraping::maimai::rating::ScoreLevel;
use maimai_scraping::maimai::schema::latest::{
    AchievementRank, FullComboKind, FullSyncKind, Idx, PlayTime, ScoreDifficulty, ScoreGeneration,
};

const IMG: &str = "https://maimaidx.jp/maimai-mobile/img/";

fn target_entry(name: &str) -> String {
    format!(
        "<div class=\"pointer\"><img class=\"h_20\" src=\"{IMG}diff_master.png\">\
         <img class=\"music_kind_icon\" src=\"{IMG}music_dx.png\">\
         <div class=\"music_name_block\">{name}</div><div class=\"music_lv_block\">13+</div>\
         <div class=\"music_score_block w_112\">100.5000%</div><input name=\"idx\" value=\"abc\"></div>"
    )
}

fn target_page(body: &str) -> String {
    format!("<html><body><div class=\"rating_block\">15012</div><div class=\"see_through_block\">title</div>{body}</body></html>")
}

#[test]
fn rating_target_page_html() {
    let h = "<div class=\"screw_block\">h</div>";
    let body = format!(
        "{h}{}{}{h}{}{h}{h}{}<div>end</div>",
        target_entry("A"),
        target_entry("B"),
        target_entry("C"),
        target_entry("D")
    );
    let list = parse_rating_target_page(&target_page(&body)).unwrap();
    assert_eq!(list.rating.get(), 15012);
    let names = |v: &Vec<maimai_scraping::maimai::parser::rating_target::RatingTargetEntry>| {
        v.iter().map(|e| e.song_name.0.clone()).collect::<Vec<_>>()
    };
    assert_eq!(names(&list.target_new), vec!["A", "B"]);
    assert_eq!(names(&list.target_old), vec!["C"]);
    assert!(list.candidates_new.is_empty());
    assert_eq!(names(&list.candidates_old), vec!["D"]);
    let e = &list.target_new[0];
    assert_eq!(e.score_metadata.difficulty, ScoreDifficulty::Master);
    assert_eq!(e.score_metadata.generation, ScoreGeneration::Deluxe);
    assert_eq!(e.level, ScoreLevel::new(13, true).unwrap());
    assert_eq!(e.achievement.get(), 1005000);
    assert_eq!(e.idx.0, "abc");

    // No title block, no rating block, a block where a heading should be.
    let no_title = "<html><body><div class=\"rating_block\">1</div></body></html>";
    assert_eq!(
        parse_rating_target_page(no_title).unwrap_err(),
        TargetPageError::Missing(TargetPart::TitleBlock)
    );
    let no_rating = format!("<html><body><div class=\"see_through_block\"></div>{body}</body></html>");
    assert_eq!(
        parse_rating_target_page(&no_rating).unwrap_err(),
        TargetPageError::Missing(TargetPart::RatingBlock)
    );
    let odd = target_page(&format!("<div>x</div>{body}"));
    assert_eq!(parse_rating_target_page(&odd).unwrap_err(), TargetPageError::NotHeading);
}

#[test]
fn record_index_page_html() {
    let play = |date: &str, idx: &str| {
        format!(
            "<div class=\"playlog_top_container\"><div class=\"sub_title\"><span>TRACK 01</span><span>{date}</span></div></div>\
             <div class=\"p_10\"><form><input name=\"idx\" value=\"{idx}\"></form></div>"
        )
    };
    let page = format!(
        "<html><body><div>{}</div><div>{}</div></body></html>",
        play("2023/09/14 01:55", "4"),
        play("2023/09/14 01:50", "3,1694624103")
    );
    let v = parse_record_index_page(&page).unwrap();
    assert_eq!(v.len(), 2);
    assert_eq!(v[0].0, PlayTime::from_naive_seconds(1694656500));
    assert_eq!(v[0].1.index(), 4);
    assert_eq!(v[1].0, PlayTime::from_naive_seconds(1694624103 + 9 * 3600));
    assert_eq!(v[1].1.index(), 3);

    // A top block with nothing after it.
    let alone = "<html><body><div><div class=\"playlog_top_container\"></div></div></body></html>";
    assert_eq!(
        parse_record_index_page(alone).unwrap_err(),
        RecordIndexError::Missing(IndexPart::MainContainer)
    );
    // No play date and no time stamp.
    let undated = "<html><body><div><div class=\"playlog_top_container\"></div>\
                   <div><input name=\"idx\" value=\"4\"></div></div></body></html>";
    assert_eq!(
        parse_record_index_page(undated).unwrap_err(),
        RecordIndexError::Missing(IndexPart::PlayDate)
    );
    assert!(parse_record_index_page("<html><body></body></html>").unwrap().is_empty());
}

fn score_form(played: bool) -> String {
    let result = if played {
        format!(
            "<div class=\"music_score_block w_112\">97.5000%</div><div class=\"music_score_block w_190\"> 1,234 / 2,000 </div>\
             <img class=\"h_30\" src=\"{IMG}music_icon_fs.png?ver=1.60\"><img class=\"h_30\" src=\"{IMG}music_icon_ap.png?ver=1.60\">\
             <img class=\"h_30\" src=\"{IMG}music_icon_s.png?ver=1.60\">"
        )
    } else {
        String::new()
    };
    format!(
        "<div class=\"w_450\"><div class=\"wrapper\"><form action=\"https://maimaidx.jp/maimai-mobile/record/musicDetail/\">\
         <img class=\"h_20\" src=\"{IMG}diff_expert.png\"><div class=\"music_lv_block\">12</div>\
         <div class=\"music_name_block\">Song</div>{result}<input name=\"idx\" value=\"i\"></form></div>\
         <img src=\"{IMG}music_standard.png\"></div>"
    )
}

#[test]
fn score_list_page_html() {
    let page = format!(
        "<html><body><div class=\"screw_block\">POPS</div>{}{}<div>other</div>{}<div class=\"screw_block\">GAME</div></body></html>",
        score_form(true),
        score_form(false),
        score_form(true)
    );
    let groups = parse_score_list_page(&page).unwrap();
    assert_eq!(groups.len(), 2);
    assert_eq!(groups[0].label, "POPS");
    // The forms end at the first block without one.
    assert_eq!(groups[0].entries.len(), 2);
    assert_eq!(groups[1].label, "GAME");
    assert!(groups[1].entries.is_empty());
    let e = &groups[0].entries[0];
    assert_eq!(e.metadata.generation, ScoreGeneration::Standard);
    assert_eq!(e.metadata.difficulty, ScoreDifficulty::Expert);
    assert_eq!(e.level, ScoreLevel::new(12, false).unwrap());
    let r = e.result.as_ref().unwrap();
    assert_eq!(r.achievement.get(), 975000);
    assert_eq!((r.deluxscore.value(), r.deluxscore.max()), (1234, 2000));
    assert_eq!(
        (r.full_combo_kind, r.full_sync_kind, r.rank),
        (FullComboKind::AllPerfect, FullSyncKind::FullSync, AchievementRank::S)
    );
    assert!(groups[0].entries[1].result.is_none());

    let no_level = page.replacen("<div class=\"music_lv_block\">12</div>", "", 1);
    assert_eq!(parse_score_list_page(&no_level).unwrap_err(), ScoreListError::Missing(ScorePart::Level));
}

fn record_page(extra_top: &str, track: &str, place: bool) -> String {
    let p = "https://maimaidx.jp/maimai-mobile/img/playlog/";
    let row = "<tr><td>1</td><td>2</td><td>3</td><td>4</td><td>5</td></tr>";
    let place = if place { "<div id=\"placeName\"><span>Some Arcade</span></div>" } else { "" };
    format!(
        "<html><body><div class=\"wrapper\">\
         <div class=\"playlog_top_container\"><img class=\"playlog_diff\" src=\"{IMG}diff_master.png\">{extra_top}\
         <div class=\"sub_title\"><span>{track}</span><span>2023/09/14 01:55</span></div></div>\
         <div class=\"p_10\"><div class=\"basic_block\">Song Title<img src=\"{p}clear.png\"></div>\
         <img class=\"music_img\" src=\"{IMG}Music/0123456789abcdef.png\">\
         <img class=\"playlog_music_kind_icon\" src=\"{IMG}music_dx.png\">\
         <div class=\"playlog_result_block\"><img class=\"playlog_achievement_newrecord\" src=\"{p}newrecord.png\">\
         <div class=\"playlog_achievement_txt\">100.5000%</div>\
         <img class=\"playlog_scorerank\" src=\"{p}sssplus.png?ver=1.15\">\
         <div class=\"playlog_result_innerblock\"><div class=\"playlog_score_block\"><div>1,234 / 2,000</div>\
         <img src=\"{p}dxstar_3.png\"></div>\
         <img src=\"{p}fc_dummy.png?ver=1.17\"><img src=\"{p}fs_dummy.png?ver=1.35\"></div></div></div></div>\
         <div class=\"gray_block\"><div class=\"playlog_chara_container\"><img class=\"chara_cycle_img\" src=\"https://example.com/c.png\">\
         <div class=\"playlog_chara_star_block\">×3</div><div class=\"playlog_chara_lv_block\">Lv12</div></div>\
         <div class=\"playlog_fl_block\"><div>12</div><div>3</div></div>\
         <table class=\"playlog_notes_detail\"><tr><th>x</th></tr>{row}{row}{row}{row}{row}</table>\
         <div class=\"playlog_rating_detail_block\"><div><img src=\"{IMG}rating_base_gold.png\">\
         <div class=\"rating_block\">15012</div></div><img src=\"{p}rating_up.png\"><div><span>(+12)</span></div></div>\
         <div class=\"playlog_score_block\"><div>120/130</div></div><div class=\"playlog_score_block\"><div>―</div></div></div>\
         {place}</body></html>"
    )
}

#[test]
fn play_record_page_html() {
    let idx = Idx::new(3, None).unwrap();
    let rec = parse_play_record(&record_page("", "TRACK 02", true), idx, true).unwrap();
    assert_eq!(rec.played_at.idx, idx);
    assert_eq!(rec.played_at.time, PlayTime::from_naive_seconds(1694656500));
    assert_eq!(rec.played_at.track.get(), 2);
    assert_eq!(rec.played_at.place.as_ref().unwrap().0, "Some Arcade");
    assert_eq!(rec.song_metadata.name.0, "Song Title");
    assert_eq!(rec.score_metadata.difficulty, ScoreDifficulty::Master);
    assert_eq!(rec.score_metadata.generation, ScoreGeneration::Deluxe);
    assert!(rec.cleared);
    assert_eq!(rec.achievement_result.value.get(), 1005000);
    assert!(rec.achievement_result.new_record);
    assert_eq!(rec.achievement_result.rank, AchievementRank::SSSPlus);
    assert_eq!(rec.deluxscore_result.score.value(), 1234);
    assert_eq!(rec.deluxscore_result.rank.get(), 3);
    assert_eq!(rec.combo_result.combo.value(), 120);
    assert_eq!(rec.rating_result.rating.get(), 15012);
    assert_eq!(rec.rating_result.delta, 12);
    assert_eq!((rec.judge_result.fast, rec.judge_result.late), (12, 3));
    assert_eq!(rec.tour_members.as_slice().len(), 1);
    assert!(rec.battle_result.is_none());
    assert!(rec.matching_result.is_none());

    // The place was expected but is not shown.
    assert!(parse_play_record(&record_page("", "TRACK 02", false), idx, true).is_err());
    assert!(parse_play_record(&record_page("", "TRACK 02", false), idx, false).unwrap().played_at.place.is_none());
    // No track span text to read, and track 0.
    assert!(parse_play_record(&record_page("", "TRACK 00", true), idx, true).unwrap_err() == PlayRecordError::TrackZero);
    // No top block at all.
    assert_eq!(
        parse_play_record("<html><body></body></html>", idx, true).unwrap_err(),
        PlayRecordError::Missing(RecordPart::TopContainer)
    );
}

#[test]
fn play_record_page_with_battle_html() {
    let eng = "https://maimaidx-eng.com/maimai-mobile/img/playlog/";
    let vs = format!(
        "<img class=\"playlog_vs\" src=\"{eng}boss.png\">\
         <img class=\"playlog_vs_result\" src=\"https://maimaidx.jp/maimai-mobile/img/playlog/lose.png\">"
    );
    let opponent = format!(
        "<div id=\"vsUser\"><span><span class=\"p_t_5 d_ib f_l\"><img src=\"{eng}boss.png\">\
         <div>Rival<span>99.0000%</span></div></span>\
         <div class=\"p_3 f_l\"><img src=\"{IMG}rating_base_gold.png\"><div class=\"rating_block\">14000</div></div></span></div>"
    );
    let page = record_page(&vs, "TRACK 03", true).replace("</body>", &format!("{opponent}</body>"));
    let idx = Idx::new(1, None).unwrap();
    let rec = parse_play_record(&page, idx, true).unwrap();
    let battle = rec.battle_result.unwrap();
    assert_eq!(battle.kind, maimai_scraping::maimai::schema::latest::BattleKind::Promotion);
    assert_eq!(battle.win_or_lose, maimai_scraping::maimai::schema::latest::BattleWinOrLose::Lose);
    assert_eq!(battle.opponent.user_name.0, "Rival");
    assert_eq!(battle.opponent.achievement_value.get(), 990000);
    assert_eq!(battle.opponent.rating.get(), 14000);
    // The battle images without the opponent block do not fit together.
    assert!(parse_play_record(&record_page(&vs, "TRACK 03", true), idx, true).is_err());
}
