use maimai_scraping::maimai::rating::{CandidateBitmask, ScoreConstant, ScoreLevel};
use maimai_scraping::maimai::schema::latest::{ScoreDifficulty, ScoreGeneration};
use maimai_scraping::maimai::song_list::in_lv::{
    Bitmask, InLvError, InLvKind, InternalScoreLevel, Levels, RawLevel, Song, SongRaw,
};
use maimai_scraping::maimai::version::MaimaiVersion;

/// What the level table's JSON number `x` reads as, as the loader computes it.
fn raw(x: f64) -> RawLevel {
    let m = x as u16;
    RawLevel {
        positive: x > 0.,
        tenths: (x.abs() * 10.).round() as u8,
        whole: if m as f64 == x { Some(m) } else { None },
        negligible: x.abs() < 1e-8,
    }
}

fn constant(v: u8) -> ScoreConstant {
    ScoreConstant::try_from_u8(v).unwrap()
}

#[test]
fn levels_from_numbers() {
    assert_eq!(
        InternalScoreLevel::from_raw(raw(13.7)),
        Ok(InternalScoreLevel::Known(constant(137)))
    );
    assert_eq!(
        InternalScoreLevel::from_raw(raw(-13.6)),
        Ok(InternalScoreLevel::Unknown(ScoreLevel::new(13, true).unwrap()))
    );
    assert_eq!(
        InternalScoreLevel::from_raw(raw(-13.7)),
        Ok(InternalScoreLevel::Unknown(ScoreLevel::new(13, true).unwrap()))
    );
    assert_eq!(
        InternalScoreLevel::from_raw(raw(-12.0)),
        Ok(InternalScoreLevel::Unknown(ScoreLevel::new(12, false).unwrap()))
    );
    assert_eq!(InternalScoreLevel::from_raw(raw(-12.3)), Err(InLvError::AbsurdFraction));
    assert_eq!(InternalScoreLevel::from_raw(raw(15.1)), Err(InLvError::OutOfRangeKnown));
    assert_eq!(InternalScoreLevel::from_raw(raw(-16.0)), Err(InLvError::OutOfRangeUnknown));
    assert_eq!(Bitmask::convert(raw(1024.)).unwrap().get(), 1024);
    assert_eq!(Bitmask::convert(raw(1025.)).unwrap_err(), InLvError::TooLargeMask);
    assert_eq!(Bitmask::convert(raw(1.5)).unwrap_err(), InLvError::FractionalMask);
    assert_eq!(Levels::convert(raw(10.0)), Ok(InternalScoreLevel::Known(constant(100))));
}

#[test]
fn level_queries() {
    let known = InternalScoreLevel::Known(constant(126));
    let unknown = InternalScoreLevel::Unknown(ScoreLevel::new(12, true).unwrap());
    assert_eq!(known.get_if_unique(), Some(constant(126)));
    assert!(known.is_unique());
    assert_eq!(unknown.get_if_unique(), None);
    assert!(!unknown.is_unique());
    assert_eq!(known.into_level(MaimaiVersion::BuddiesPlus), ScoreLevel::new(12, true).unwrap());
    assert_eq!(known.into_level(MaimaiVersion::Buddies), ScoreLevel::new(12, false).unwrap());
    assert_eq!(unknown.into_level(MaimaiVersion::Prism), ScoreLevel::new(12, true).unwrap());
}

fn song_raw(lv: &[f64], dx: u8, v: i8) -> SongRaw {
    SongRaw {
        dx,
        v,
        lv: lv.iter().map(|&x| raw(x)).collect(),
        n: "Name".to_owned(),
        nn: None,
        ico: "abc".to_owned(),
    }
}

#[test]
fn songs_from_table() {
    let s = Song::<Levels>::try_from_raw(song_raw(&[3.0, 7.0, 10.5, 13.2, 0.0], 1, 23)).unwrap();
    assert_eq!(s.generation, ScoreGeneration::Deluxe);
    assert_eq!(s.version, MaimaiVersion::Prism);
    assert_eq!(s.levels.re_master.map(|e| e.index), None);
    assert_eq!(s.levels.master.value, InternalScoreLevel::Known(constant(132)));
    assert_eq!(s.song_name_abbrev, "Name");
    assert_eq!(s.icon.0, "https://maimaidx.jp/maimai-mobile/img/Music/abc.png");
    let entries = s.levels.iter();
    assert_eq!(entries.len(), 4);
    assert_eq!(entries[3].0, ScoreDifficulty::Master);
    assert_eq!(entries[3].1.index, 3);
    assert_eq!(s.levels.get(ScoreDifficulty::ReMaster), None);
    assert_eq!(s.levels.get(ScoreDifficulty::Utage), None);

    let s = Song::<Levels>::try_from_raw(song_raw(&[3.0, 7.0, 10.5, 13.2, 0.0, 14.1], 0, -5))
        .unwrap();
    assert_eq!(s.generation, ScoreGeneration::Standard);
    assert_eq!(s.version, MaimaiVersion::OrangePlus);
    assert_eq!(s.levels.re_master.map(|e| e.index), Some(5));
    assert_eq!(s.levels.iter().len(), 5);
    assert_eq!(
        s.levels.get(ScoreDifficulty::ReMaster),
        Some(InternalScoreLevel::Known(constant(141)))
    );

    let s = Song::<Levels>::try_from_raw(song_raw(&[3.0, 7.0, 10.5, 13.2, 14.0], 0, 0)).unwrap();
    assert_eq!(s.levels.re_master.map(|e| e.index), Some(4));

    let err = |lv: &[f64], dx: u8, v: i8| Song::<Levels>::try_from_raw(song_raw(lv, dx, v)).err();
    assert_eq!(err(&[3.0, 7.0, 10.5, 13.2, 1.0, 14.1], 0, 0), Some(InLvError::NonzeroFifth));
    assert_eq!(err(&[3.0, 7.0, 10.5, 13.2, 0.0, 0.0, 0.0], 0, 0), Some(InLvError::UnexpectedLength));
    assert_eq!(err(&[3.0, 7.0, 10.5, 13.2, 0.0], 2, 0), Some(InLvError::UnexpectedGeneration(2)));
    assert_eq!(err(&[3.0, 7.0, 10.5, 13.2, 0.0], 0, 30), Some(InLvError::UnknownVersion(30)));
    assert_eq!(err(&[3.0, 17.0, 10.5, 13.2, 0.0], 0, 0), Some(InLvError::OutOfRangeKnown));

    let masks = Song::<Bitmask>::try_from_raw(song_raw(&[1.0, 2.0, 3.0, 4.0, 0.0], 0, 0)).unwrap();
    let m: CandidateBitmask = masks.levels.expert.value;
    assert_eq!(m.get(), 3);
}
