use maimai_scraping::maimai::official_song_list::{
    category_from_str, parse_utage_score, Levels, OfficialSongError, ScoreDetails, SongRaw,
    SortIndex, Version, Song,
};
use maimai_scraping::maimai::rating::ScoreLevel;
use maimai_scraping::maimai::schema::latest::Category;
use maimai_scraping::maimai::version::{MaimaiVersion, YearMonthDay};

fn s(x: &str) -> Option<String> {
    Some(x.to_owned())
}

fn lv(l: u8, plus: bool) -> ScoreLevel {
    ScoreLevel::new(l, plus).unwrap()
}

#[test]
fn versions() {
    let v = Version::from_str("24015").unwrap();
    assert_eq!((v.version(), v.suffix()), (MaimaiVersion::Buddies, 15));
    let v = Version::from_str("100").unwrap_err();
    assert_eq!(v, OfficialSongError::BadVersionSuffix);
    assert_eq!(Version::from_str("25099").unwrap().version(), MaimaiVersion::Prism);
    assert_eq!(Version::from_str("250100").unwrap_err(), OfficialSongError::BadVersionSuffix);
    assert_eq!(Version::from_str("26000").unwrap_err(), OfficialSongError::UnknownVersion);
    assert_eq!(Version::from_str("18").unwrap_err(), OfficialSongError::UnknownVersion);
    assert_eq!(Version::from_str("185+1").unwrap().version(), MaimaiVersion::MurasakiPlus);
}

#[test]
fn categories() {
    assert_eq!(category_from_str("POPS＆アニメ"), Ok(Category::PopsAnime));
    assert_eq!(category_from_str("niconico＆VOCALOID™"), Ok(Category::NiconicoVocaloid));
    assert_eq!(category_from_str("東方Project"), Ok(Category::TouhouProject));
    assert_eq!(category_from_str("POPS&アニメ"), Err(OfficialSongError::UnknownCategory));
}

#[test]
fn level_fields() {
    assert_eq!(Levels::parse(&None, &None, &None, &None, &None), Ok(None));
    let l = Levels::parse(&s("3"), &s("7"), &s("10+"), &s("13"), &None).unwrap().unwrap();
    assert_eq!(l.expert, lv(10, true));
    assert_eq!(l.re_master, None);
    let l = Levels::parse(&s("3"), &s("7"), &s("10+"), &s("13"), &s("14+")).unwrap().unwrap();
    assert_eq!(l.re_master, Some(lv(14, true)));
    assert_eq!(
        Levels::parse(&s("3"), &None, &s("10+"), &s("13"), &None),
        Err(OfficialSongError::UnexpectedLevels)
    );
    assert_eq!(
        Levels::parse(&None, &None, &None, &None, &s("13")),
        Err(OfficialSongError::UnexpectedLevels)
    );
    assert_eq!(
        Levels::parse(&s("3"), &s("x"), &s("10+"), &s("13"), &None),
        Err(OfficialSongError::BadLevel)
    );
}

#[test]
fn utage_fields() {
    assert_eq!(parse_utage_score(None, None, None, false), Ok(None));
    let u = parse_utage_score(s("13+?"), s("c"), s("宴"), true).unwrap().unwrap();
    assert_eq!(u.level, lv(13, true));
    assert!(u.buddy);
    assert_eq!(u.kanji.0, "宴");
    assert_eq!(
        parse_utage_score(s("13+"), s("c"), s("宴"), false),
        Err(OfficialSongError::UtageLevelSuffix)
    );
    assert_eq!(
        parse_utage_score(s("13?"), None, s("宴"), false),
        Err(OfficialSongError::UnexpectedUtage)
    );
}

fn raw() -> SongRaw {
    SongRaw {
        title: "T".to_owned(),
        title_kana: "テ".to_owned(),
        artist: "A".to_owned(),
        catcode: "maimai".to_owned(),
        image_url: "x.png".to_owned(),
        release: s("240321"),
        sort: 42,
        version: "24500".to_owned(),
        date: s("NEW"),
        key: None,
        dx_lev_bas: s("4"),
        dx_lev_adv: s("8"),
        dx_lev_exp: s("11"),
        dx_lev_mas: s("13+"),
        dx_lev_remas: None,
        lev_bas: None,
        lev_adv: None,
        lev_exp: None,
        lev_mas: None,
        lev_remas: None,
        lev_utage: None,
        comment: None,
        kanji: None,
        buddy: None,
    }
}

#[test]
fn songs() {
    let song = Song::try_from_raw(raw()).unwrap();
    assert_eq!(song.title.0, "T");
    assert_eq!(song.image.0, "https://maimaidx.jp/maimai-mobile/img/Music/x.png");
    assert_eq!(song.release, Some(YearMonthDay { year: 2024, month: 3, day: 21 }));
    assert_eq!(song.sort, SortIndex(42));
    assert_eq!(song.version.version(), MaimaiVersion::BuddiesPlus);
    assert!(song.new);
    assert!(!song.locked);
    match song.details {
        ScoreDetails::Ordinary(o) => {
            assert_eq!(o.category, Category::MaimaiOriginal);
            assert_eq!(o.standard, None);
            assert_eq!(o.deluxe.unwrap().master, lv(13, true));
        }
        ScoreDetails::Utage(_) => panic!("not an utage song"),
    }

    let mut r = raw();
    r.release = s("000000");
    assert_eq!(Song::try_from_raw(r).unwrap().release, None);
    let mut r = raw();
    r.release = s("2403");
    assert_eq!(Song::try_from_raw(r).unwrap_err(), OfficialSongError::BadRelease);
    let mut r = raw();
    r.key = s("x");
    assert_eq!(Song::try_from_raw(r).unwrap_err(), OfficialSongError::UnexpectedKey);
    let mut r = raw();
    r.date = s("OLD");
    assert_eq!(Song::try_from_raw(r).unwrap_err(), OfficialSongError::UnexpectedDate);
    let mut r = raw();
    r.catcode = "?".to_owned();
    assert_eq!(Song::try_from_raw(r).unwrap_err(), OfficialSongError::UnknownCategory);
    let mut r = raw();
    r.buddy = s("○");
    assert_eq!(Song::try_from_raw(r).unwrap_err(), OfficialSongError::OrdinaryWithUtage);

    let mut r = raw();
    r.dx_lev_bas = None;
    r.dx_lev_adv = None;
    r.dx_lev_exp = None;
    r.dx_lev_mas = None;
    r.catcode = "宴会場".to_owned();
    r.lev_utage = s("14?");
    r.comment = s("c");
    r.kanji = s("光");
    let song = Song::try_from_raw(r).unwrap();
    match song.details {
        ScoreDetails::Utage(u) => assert_eq!(u.level, lv(14, false)),
        ScoreDetails::Ordinary(_) => panic!("an utage song"),
    }
    let mut r = raw();
    r.dx_lev_bas = None;
    r.dx_lev_adv = None;
    r.dx_lev_exp = None;
    r.dx_lev_mas = None;
    assert_eq!(Song::try_from_raw(r).unwrap_err(), OfficialSongError::NoScore);
}
