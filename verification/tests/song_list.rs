use maimai_scraping::maimai::rating::ScoreLevel;
use maimai_scraping::maimai::schema::latest::{SongName, UtageKindRaw};
use maimai_scraping::maimai::song_list::{
    maimai_char_order, RemoveState, SongKana, UtageComment, UtageScore,
};
use maimai_scraping::maimai::version::{MaimaiVersion, YearMonthDay};

fn kana(s: &str) -> SongKana {
    SongKana(s.to_owned())
}

#[test]
fn test_song_kana_cmp() {
    for [x, y] in [
        ["ソウキユウフカク", "YETANOTHERDRIZZLYRAIN"],
        ["L4TS2018FEATアヒルアントケイタ", "LUNATICVIBES"],
        [
            "MAIMAIチヤンノテエマ",
            "MAIムMAIムFEATシユウカンシヨウネンマカシン",
        ],
    ]
    .map(|x| x.map(kana))
    {
        assert!(x < y);
        assert!(y > x);
    }
}

#[test]
fn kana_order_classes_and_empty() {
    assert!(kana("ア") < kana("A"));
    assert!(kana("Z") < kana("0"));
    assert!(kana("9") < kana("あ"));
    assert!(kana("ン") < kana("ZZZ"));
    assert!(kana("A") < kana(""));
    assert!(kana("") > kana("A"));
    assert!(kana("") == kana(""));
    assert!(kana("AB") == kana("AB"));
    assert!(kana("AB") < kana("ABC"));
    assert!(kana("AC") > kana("ABC"));
    assert_eq!(kana("AB").cmp(&kana("AB")), std::cmp::Ordering::Equal);
}

#[test]
fn char_order_keys() {
    assert_eq!(maimai_char_order('ア'), (0, 'ア'));
    assert_eq!(maimai_char_order('ン'), (0, 'ン'));
    assert_eq!(maimai_char_order('Q'), (1, 'Q'));
    assert_eq!(maimai_char_order('7'), (2, '7'));
    assert_eq!(maimai_char_order('a'), (3, 'a'));
    assert_eq!(maimai_char_order('ヴ'), (3, 'ヴ'));
}

fn level(l: u8, plus: bool) -> ScoreLevel {
    ScoreLevel::new(l, plus).unwrap()
}

fn utage(comment: &str, kanji: &str, name: Option<&str>) -> UtageScore {
    UtageScore::new(
        level(13, false),
        UtageComment(comment.to_owned()),
        UtageKindRaw(kanji.to_owned()),
        false,
        name.map(|n| SongName(n.to_owned())),
    )
}

#[test]
fn utage_identifier_and_overwrite() {
    let a = utage("c", "宴", Some("x"));
    let b = utage("c", "宴", None);
    assert!(a.eq_without_name_overwrite(&b));
    assert!(a != b);
    assert!(!a.eq_without_name_overwrite(&utage("d", "宴", None)));
    assert!(!a.eq_without_name_overwrite(&utage("c", "光", None)));
    let id = a.identifier();
    assert_eq!(id.0, UtageKindRaw("宴".to_owned()));
    assert_eq!(id.1, level(13, false));
    assert_eq!(id.to_owned(), id);
    let c = b.clone().with_name_overwrite(Some(SongName("x".to_owned())));
    assert_eq!(c, a);
    assert_eq!(a.name_overwrite(), &Some(SongName("x".to_owned())));
    assert_eq!(a.comment(), &UtageComment("c".to_owned()));
    assert!(!a.buddy());
    assert_eq!(a.level(), level(13, false));
    assert_eq!(a.kanji(), &UtageKindRaw("宴".to_owned()));
}

fn ymd(year: i32, month: u32, day: u32) -> YearMonthDay {
    YearMonthDay { year, month, day }
}

#[test]
fn remove_state_versions() {
    assert!(RemoveState::default().exist_for_version(MaimaiVersion::Maimai));
    // Removed on the first day of Festival: gone from Festival on.
    let at_start = RemoveState::Removed(ymd(2022, 9, 15));
    assert!(at_start.exist_for_version(MaimaiVersion::UniversePlus));
    assert!(!at_start.exist_for_version(MaimaiVersion::Festival));
    assert!(!at_start.exist_for_version(MaimaiVersion::Buddies));
    // Removed in the middle of Festival: still there in Festival.
    let in_middle = RemoveState::Removed(ymd(2022, 12, 1));
    assert!(in_middle.exist_for_version(MaimaiVersion::Festival));
    assert!(!in_middle.exist_for_version(MaimaiVersion::FestivalPlus));
    // Removed in Festival, back in Buddies.
    let revived = RemoveState::Revived(ymd(2022, 12, 1), ymd(2023, 10, 1));
    assert!(revived.exist_for_version(MaimaiVersion::Festival));
    assert!(!revived.exist_for_version(MaimaiVersion::FestivalPlus));
    assert!(revived.exist_for_version(MaimaiVersion::Buddies));
    assert!(revived.exist_for_version(MaimaiVersion::Prism));
}
