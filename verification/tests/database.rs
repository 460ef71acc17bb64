use maimai_scraping::maimai::rating::{InternalScoreLevel, ScoreConstant, ScoreLevel};
use maimai_scraping::maimai::schema::latest::{
    ScoreDifficulty, ScoreGeneration, SongIcon, SongName, UtageKindRaw,
};

use maimai_scraping::maimai::song_list::database::{
    verify_songs, DatabaseError, OrdinaryScore, OrdinaryScores, Song, SongDatabase,
};
use maimai_scraping::maimai::song_list::{RemoveState, UtageComment, UtageScore};
use maimai_scraping::maimai::version::{MaimaiVersion, YearMonthDay};

fn icon_url(digits: &str) -> SongIcon {
    SongIcon(format!("https://maimaidx.jp/maimai-mobile/img/Music/{digits}.png"))
}

fn chart(level: Option<InternalScoreLevel>) -> OrdinaryScore {
    OrdinaryScore {
        levels: match level {
            Some(l) => vec![(MaimaiVersion::Buddies, l)],
            None => vec![],
        },
    }
}

fn scores(version: Option<MaimaiVersion>, re_master: bool) -> OrdinaryScores {
    let known = |v: u8| Some(InternalScoreLevel::known(ScoreConstant::try_from_u8(v).unwrap()));
    OrdinaryScores {
        easy: None,
        basic: chart(known(50)),
        advanced: chart(known(80)),
        expert: chart(known(110)),
        master: chart(known(130)),
        re_master: if re_master { Some(chart(known(135))) } else { None },
        version,
    }
}

fn song(name: &str, icon: Option<SongIcon>, deluxe: Option<OrdinaryScores>, utage: usize) -> Song {
    Song {
        name: vec![(MaimaiVersion::Festival, SongName(format!("{name} (old)"))), (MaimaiVersion::Buddies, SongName(name.to_owned()))],
        category: vec![],
        artist: vec![],
        pronunciation: None,
        abbreviation: vec![],
        standard: None,
        deluxe,
        utage_scores: (0..utage)
            .map(|_| {
                UtageScore::new(
                    ScoreLevel::new(13, false).unwrap(),
                    UtageComment(String::new()),
                    UtageKindRaw("宴".to_owned()),
                    false,
                    None,
                )
            })
            .collect(),
        icon,
        remove_state: RemoveState::Present,
        locked_history: vec![],
    }
}

#[test]
fn icon_standard_part() {
    let a = icon_url("0123456789abcdef");
    assert_eq!(a.standard_part(), Some("0123456789abcdef"));
    let b = SongIcon("https://maimaidx-eng.com/maimai-mobile/img/Music/0123456789abcdef.png".to_owned());
    assert_eq!(b.standard_part(), Some("0123456789abcdef"));
    // The same cover art on either site.
    assert!(a == b);
    let c = SongIcon("https://example.com/x.png".to_owned());
    assert_eq!(c.standard_part(), None);
    assert!(c != a);
    assert!(c == SongIcon("https://example.com/x.png".to_owned()));
    // Upper-case digits are not the usual form.
    assert_eq!(icon_url("0123456789ABCDEF").standard_part(), None);
}

#[test]
fn database_ids_and_lookups() {
    let songs = vec![
        song("A", Some(icon_url("000000000000000a")), Some(scores(Some(MaimaiVersion::Buddies), true)), 2),
        song("B", Some(icon_url("000000000000000b")), Some(scores(Some(MaimaiVersion::Festival), false)), 0),
    ];
    let db = SongDatabase::new(&songs).unwrap();
    assert_eq!(db.songs().len(), 2);
    assert_eq!(db.songs()[0].id(), 0);
    // Ten ids per song and one per utage chart.
    assert_eq!(db.songs()[1].id(), 12);
    let b = db.song_from_icon(&icon_url("000000000000000b")).unwrap();
    assert_eq!(b.id(), 12);
    assert_eq!(b.latest_song_name(), &SongName("B".to_owned()));
    assert!(matches!(db.song_from_icon(&icon_url("000000000000000c")), Err(DatabaseError::NoSongForIcon)));
    assert_eq!(db.song_from_name(&SongName("A".to_owned())).len(), 1);
    assert_eq!(db.song_from_name(&SongName("A (old)".to_owned())).len(), 0);
    let dx = b.scores(ScoreGeneration::Deluxe).unwrap();
    assert_eq!(dx.id(), 17);
    assert!(b.scores(ScoreGeneration::Standard).is_none());
    let master = dx.score(ScoreDifficulty::Master).unwrap();
    assert_eq!(master.id(), 20);
    assert_eq!(master.to_string(), "B (DX Mas)");
    assert!(dx.score(ScoreDifficulty::ReMaster).is_none());
    assert_eq!(dx.all_scores().len(), 4);
    assert_eq!(db.songs()[0].utage_scores().len(), 2);
    // In BUDDiES, both songs exist: 5 + 4 charts.
    let charts = db.all_scores_for_version(MaimaiVersion::Buddies);
    assert_eq!(charts.len(), 9);
    assert_eq!(charts[0].score.id(), 5);
    assert_eq!(charts[8].score.id(), 20);
    assert!(charts[8].level.is_some());
    // In FESTiVAL only "B" was there; its levels record no FESTiVAL entry.
    let charts = db.all_scores_for_version(MaimaiVersion::Festival);
    assert_eq!(charts.len(), 4);
    assert!(charts[0].level.is_none());
}

#[test]
fn database_refuses_bad_lists() {
    let mut nameless = song("A", Some(icon_url("000000000000000a")), None, 0);
    nameless.name.clear();
    assert_eq!(verify_songs(&vec![nameless]), Err(DatabaseError::NoName(0)));
    let no_icon = song("A", None, None, 0);
    assert_eq!(verify_songs(&vec![no_icon]), Err(DatabaseError::NoIcon(0)));
    let no_version = song("A", Some(icon_url("000000000000000a")), Some(scores(None, false)), 0);
    assert_eq!(
        verify_songs(&vec![no_version]),
        Err(DatabaseError::NoVersion(0, ScoreGeneration::Deluxe))
    );
    let twins = vec![
        song("A", Some(icon_url("000000000000000a")), None, 0),
        song("B", Some(SongIcon("https://maimaidx-eng.com/maimai-mobile/img/Music/000000000000000a.png".to_owned())), None, 0),
    ];
    assert_eq!(verify_songs(&twins), Err(DatabaseError::DuplicateIcon));
    let mut undated = song("A", Some(icon_url("000000000000000a")), None, 0);
    undated.remove_state = RemoveState::Removed(YearMonthDay { year: 2000, month: 1, day: 1 });
    assert_eq!(verify_songs(&vec![undated]), Err(DatabaseError::UndatedRemoval(0)));
    // A removed song needs no cover art.
    let mut removed = song("A", None, None, 0);
    removed.remove_state = RemoveState::Removed(YearMonthDay { year: 2023, month: 1, day: 1 });
    assert_eq!(verify_songs(&vec![removed]), Ok(()));
}
