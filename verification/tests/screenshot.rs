use maimai_scraping::maimai::schema::latest::{Idx, PlayTime};
use maimai_scraping::screenshot::{
    disallowed_for_filename, escape_title, is_saved, latest_record_time, playlog_capture_time,
    rating_target_to_capture, screenshot_time, tool_to_capture,
    playlog_screenshot_name, rating_target_screenshot_name, saved_playlog_time,
    tool_screenshot_name, NoTimestamp,
};

#[test]
fn file_names() {
    assert!(disallowed_for_filename('/'));
    assert!(disallowed_for_filename('\u{1F}'));
    assert!(!disallowed_for_filename('a'));
    assert_eq!(escape_title("A/B:C?"), "A_B_C_");
    assert_eq!(
        playlog_screenshot_name("2024-01-01_12-34-56", "Why?"),
        "2024-01-01_12-34-56_playlogDetail_Why_.png"
    );
    assert_eq!(rating_target_screenshot_name("T"), "T_ratingTarget.png");
    assert_eq!(tool_screenshot_name("T", "U", false), "T_tool_U_list.png");
    assert_eq!(tool_screenshot_name("T", "U", true), "T_tool_U_tiles.png");
}

#[test]
fn saved_times() {
    // 2024-01-01 12:34:56.
    assert_eq!(
        saved_playlog_time("2024-01-01_12-34-56_playlogDetail_Song.png"),
        Some(1704112496)
    );
    assert_eq!(saved_playlog_time("2024-01-01_12-34-56_ratingTarget.png"), None);
    assert_eq!(saved_playlog_time("garbage_playlogDetail_x.png"), None);
}

#[test]
fn capture_decisions() {
    // 1694624103 is 2023-09-13 16:55:03 UTC, 2023-09-14 01:55:03 in Japan.
    let i = Idx::new(0, Some(1694624103)).unwrap();
    let jst = 1694624103 + 9 * 3600;
    assert_eq!(playlog_capture_time(i, &vec![]), Ok(Some(PlayTime::from_naive_seconds(jst))));
    assert_eq!(playlog_capture_time(i, &vec![jst]), Ok(None));
    assert_eq!(playlog_capture_time(Idx::new(0, None).unwrap(), &vec![]), Err(NoTimestamp));
    let records = vec![
        (PlayTime::from_naive_seconds(0), Idx::new(1, Some(100)).unwrap()),
        (PlayTime::from_naive_seconds(0), Idx::new(0, Some(200)).unwrap()),
    ];
    assert_eq!(latest_record_time(&records), Some(PlayTime::from_naive_seconds(200 + 9 * 3600)));
    assert_eq!(latest_record_time(&vec![]), None);
}

#[test]
fn screenshot_names_read_back() {
    let name = playlog_screenshot_name("2024-01-01_12-34-56", "A_playlogDetail_B?");
    assert_eq!(saved_playlog_time(&name), Some(1704112496));
}

#[test]
fn rating_target_and_tool_captures() {
    let t = screenshot_time(PlayTime::from_naive_seconds(1694656500)).unwrap();
    assert_eq!(t, "2023-09-14_01-55-00");
    let files = vec![format!("{t}_ratingTarget.png"), format!("{t}_tool_2023-09-01_00-00-00_list.png")];
    assert!(is_saved(&files, &files[0]));
    assert!(!is_saved(&files, "other.png"));
    assert_eq!(rating_target_to_capture(&files, &t), None);
    assert_eq!(
        rating_target_to_capture(&files, "2023-09-15_10-00-00").unwrap(),
        "2023-09-15_10-00-00_ratingTarget.png"
    );
    assert_eq!(tool_to_capture(&files, &t, "2023-09-01_00-00-00", false), None);
    assert_eq!(
        tool_to_capture(&files, &t, "2023-09-01_00-00-00", true).unwrap(),
        format!("{t}_tool_2023-09-01_00-00-00_tiles.png")
    );
}
