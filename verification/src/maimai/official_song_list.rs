use vstd::prelude::*;

use vstd::std_specs::convert::FromSpecImpl;

use crate::maimai::rating::{parse_level_spec, ScoreLevel};
use crate::maimai::schema::latest::{
    naive_date_of, parse_naive_date, parse_url, url_text, ArtistName, Category, SongIcon,
    SongName, UtageKindRaw,
};
use crate::maimai::song_list::{SongKana, UtageComment, UtageScore};
use crate::maimai::version::{MaimaiVersion, YearMonthDay};
use crate::text::{parse_unsigned, parse_unsigned_max, push_str, str_eq};

verus! {

/// Why an entry of the official song list could not be read.
#[derive(Clone, Copy, PartialEq, Eq, Structural, Debug)]
pub enum OfficialSongError {
    /// The level fields are neither all empty nor BASIC to MASTER given.
    UnexpectedLevels,
    /// A level that is no level.
    BadLevel,
    /// `buddy` is neither empty nor "○".
    UnexpectedBuddy,
    /// The utage fields are neither all given nor all empty.
    UnexpectedUtage,
    /// The utage level does not end with "?".
    UtageLevelSuffix,
    /// No levels, and no utage chart in the utage category.
    NoScore,
    /// Levels together with an utage chart or a buddy mark.
    OrdinaryWithUtage,
    /// An unknown category.
    UnknownCategory,
    /// The image makes no valid address.
    BadImage,
    /// The release date is no date.
    BadRelease,
    /// An unknown version code.
    UnknownVersion,
    /// A version suffix that is no number from 0 to 99.
    BadVersionSuffix,
    /// `date` is neither empty nor "NEW".
    UnexpectedDate,
    /// `key` is neither empty nor "○".
    UnexpectedKey,
}

/// A song of the official song list, as its JSON holds it.
#[derive(Clone, Debug)]
pub struct SongRaw {
    pub title: String,
    pub title_kana: String,
    pub artist: String,
    pub catcode: String,
    pub image_url: String,
    pub release: Option<String>,
    pub sort: u64,
    pub version: String,
    pub date: Option<String>,
    pub key: Option<String>,
    pub dx_lev_bas: Option<String>,
    pub dx_lev_adv: Option<String>,
    pub dx_lev_exp: Option<String>,
    pub dx_lev_mas: Option<String>,
    pub dx_lev_remas: Option<String>,
    pub lev_bas: Option<String>,
    pub lev_adv: Option<String>,
    pub lev_exp: Option<String>,
    pub lev_mas: Option<String>,
    pub lev_remas: Option<String>,
    pub lev_utage: Option<String>,
    pub comment: Option<String>,
    pub kanji: Option<String>,
    pub buddy: Option<String>,
}

/// The position of a song in the default order of the list.
#[derive(Clone, Copy, PartialEq, Eq, Structural, PartialOrd, Ord, Debug)]
pub struct SortIndex(pub u64);

impl From<u64> for SortIndex {
    fn from(value: u64) -> (r: SortIndex) {
        SortIndex(value)
    }
}

impl FromSpecImpl<u64> for SortIndex {
    open spec fn obeys_from_spec() -> bool {
        true
    }

    open spec fn from_spec(v: u64) -> SortIndex {
        SortIndex(v)
    }
}

/// The version a chart was added in, and a number from 0 to 99 within it.
#[derive(Clone, Copy, PartialEq, Eq, Structural, Debug)]
pub struct Version {
    version: MaimaiVersion,
    suffix: u8,
}

/// The levels of the charts of one generation.
#[derive(Clone, Copy, PartialEq, Eq, Structural, Debug)]
pub struct Levels {
    pub basic: ScoreLevel,
    pub advanced: ScoreLevel,
    pub expert: ScoreLevel,
    pub master: ScoreLevel,
    pub re_master: Option<ScoreLevel>,
}

/// An ordinary song: its category, and its standard and DX charts.
#[derive(Clone, Copy, PartialEq, Eq, Structural, Debug)]
pub struct OrdinaryScore {
    pub category: Category,
    pub standard: Option<Levels>,
    pub deluxe: Option<Levels>,
}

#[derive(Clone, PartialEq, Eq, Debug)]
pub enum ScoreDetails {
    Ordinary(OrdinaryScore),
    Utage(UtageScore),
}

/// A song of the official song list.
#[derive(Clone, PartialEq, Eq, Debug)]
pub struct Song {
    pub title: SongName,
    pub title_kana: SongKana,
    pub artist: ArtistName,
    pub image: SongIcon,
    pub release: Option<YearMonthDay>,
    pub sort: SortIndex,
    pub version: Version,
    pub new: bool,
    pub locked: bool,
    pub details: ScoreDetails,
}

/// The version that a three-digit code of the list names.
pub open spec fn version_of_code(x: Seq<char>) -> Option<MaimaiVersion> {
    if x == "100"@ {
        Some(MaimaiVersion::Maimai)
    } else if x == "110"@ {
        Some(MaimaiVersion::MaimaiPlus)
    } else if x == "120"@ {
        Some(MaimaiVersion::Green)
    } else if x == "130"@ {
        Some(MaimaiVersion::GreenPlus)
    } else if x == "140"@ {
        Some(MaimaiVersion::Orange)
    } else if x == "150"@ {
        Some(MaimaiVersion::OrangePlus)
    } else if x == "160"@ {
        Some(MaimaiVersion::Pink)
    } else if x == "170"@ {
        Some(MaimaiVersion::PinkPlus)
    } else if x == "180"@ {
        Some(MaimaiVersion::Murasaki)
    } else if x == "185"@ {
        Some(MaimaiVersion::MurasakiPlus)
    } else if x == "190"@ {
        Some(MaimaiVersion::Milk)
    } else if x == "195"@ {
        Some(MaimaiVersion::MilkPlus)
    } else if x == "199"@ {
        Some(MaimaiVersion::Finale)
    } else if x == "200"@ {
        Some(MaimaiVersion::Deluxe)
    } else if x == "205"@ {
        Some(MaimaiVersion::DeluxePlus)
    } else if x == "210"@ {
        Some(MaimaiVersion::Splash)
    } else if x == "215"@ {
        Some(MaimaiVersion::SplashPlus)
    } else if x == "220"@ {
        Some(MaimaiVersion::Universe)
    } else if x == "225"@ {
        Some(MaimaiVersion::UniversePlus)
    } else if x == "230"@ {
        Some(MaimaiVersion::Festival)
    } else if x == "235"@ {
        Some(MaimaiVersion::FestivalPlus)
    } else if x == "240"@ {
        Some(MaimaiVersion::Buddies)
    } else if x == "245"@ {
        Some(MaimaiVersion::BuddiesPlus)
    } else if x == "250"@ {
        Some(MaimaiVersion::Prism)
    } else {
        None
    }
}

/// Each version code of the official song list names its own version, and
/// codes of later versions are larger numbers.
pub proof fn lemma_version_of_code_names()
    ensures
        version_of_code(seq!['1', '0', '0']) == Some(MaimaiVersion::Maimai),
        version_of_code(seq!['1', '1', '0']) == Some(MaimaiVersion::MaimaiPlus),
        version_of_code(seq!['1', '2', '0']) == Some(MaimaiVersion::Green),
        version_of_code(seq!['1', '3', '0']) == Some(MaimaiVersion::GreenPlus),
        version_of_code(seq!['1', '4', '0']) == Some(MaimaiVersion::Orange),
        version_of_code(seq!['1', '5', '0']) == Some(MaimaiVersion::OrangePlus),
        version_of_code(seq!['1', '6', '0']) == Some(MaimaiVersion::Pink),
        version_of_code(seq!['1', '7', '0']) == Some(MaimaiVersion::PinkPlus),
        version_of_code(seq!['1', '8', '0']) == Some(MaimaiVersion::Murasaki),
        version_of_code(seq!['1', '8', '5']) == Some(MaimaiVersion::MurasakiPlus),
        version_of_code(seq!['1', '9', '0']) == Some(MaimaiVersion::Milk),
        version_of_code(seq!['1', '9', '5']) == Some(MaimaiVersion::MilkPlus),
        version_of_code(seq!['1', '9', '9']) == Some(MaimaiVersion::Finale),
        version_of_code(seq!['2', '0', '0']) == Some(MaimaiVersion::Deluxe),
        version_of_code(seq!['2', '0', '5']) == Some(MaimaiVersion::DeluxePlus),
        version_of_code(seq!['2', '1', '0']) == Some(MaimaiVersion::Splash),
        version_of_code(seq!['2', '1', '5']) == Some(MaimaiVersion::SplashPlus),
        version_of_code(seq!['2', '2', '0']) == Some(MaimaiVersion::Universe),
        version_of_code(seq!['2', '2', '5']) == Some(MaimaiVersion::UniversePlus),
        version_of_code(seq!['2', '3', '0']) == Some(MaimaiVersion::Festival),
        version_of_code(seq!['2', '3', '5']) == Some(MaimaiVersion::FestivalPlus),
        version_of_code(seq!['2', '4', '0']) == Some(MaimaiVersion::Buddies),
        version_of_code(seq!['2', '4', '5']) == Some(MaimaiVersion::BuddiesPlus),
        version_of_code(seq!['2', '5', '0']) == Some(MaimaiVersion::Prism),
        forall|x: Seq<char>, y: Seq<char>| (#[trigger] version_of_code(x)) is Some && version_of_code(x) == #[trigger] version_of_code(y) ==> x == y,
{
    reveal_strlit("100");
    assert("100"@ =~= seq!['1', '0', '0']);
    reveal_strlit("110");
    assert("110"@ =~= seq!['1', '1', '0']);
    reveal_strlit("120");
    assert("120"@ =~= seq!['1', '2', '0']);
    reveal_strlit("130");
    assert("130"@ =~= seq!['1', '3', '0']);
    reveal_strlit("140");
    assert("140"@ =~= seq!['1', '4', '0']);
    reveal_strlit("150");
    assert("150"@ =~= seq!['1', '5', '0']);
    reveal_strlit("160");
    assert("160"@ =~= seq!['1', '6', '0']);
    reveal_strlit("170");
    assert("170"@ =~= seq!['1', '7', '0']);
    reveal_strlit("180");
    assert("180"@ =~= seq!['1', '8', '0']);
    reveal_strlit("185");
    assert("185"@ =~= seq!['1', '8', '5']);
    reveal_strlit("190");
    assert("190"@ =~= seq!['1', '9', '0']);
    reveal_strlit("195");
    assert("195"@ =~= seq!['1', '9', '5']);
    reveal_strlit("199");
    assert("199"@ =~= seq!['1', '9', '9']);
    reveal_strlit("200");
    assert("200"@ =~= seq!['2', '0', '0']);
    reveal_strlit("205");
    assert("205"@ =~= seq!['2', '0', '5']);
    reveal_strlit("210");
    assert("210"@ =~= seq!['2', '1', '0']);
    reveal_strlit("215");
    assert("215"@ =~= seq!['2', '1', '5']);
    reveal_strlit("220");
    assert("220"@ =~= seq!['2', '2', '0']);
    reveal_strlit("225");
    assert("225"@ =~= seq!['2', '2', '5']);
    reveal_strlit("230");
    assert("230"@ =~= seq!['2', '3', '0']);
    reveal_strlit("235");
    assert("235"@ =~= seq!['2', '3', '5']);
    reveal_strlit("240");
    assert("240"@ =~= seq!['2', '4', '0']);
    reveal_strlit("245");
    assert("245"@ =~= seq!['2', '4', '5']);
    reveal_strlit("250");
    assert("250"@ =~= seq!['2', '5', '0']);
    assert("110"@[1] != "100"@[1]);
    assert("120"@[1] != "100"@[1]);
    assert("120"@[1] != "110"@[1]);
    assert("130"@[1] != "100"@[1]);
    assert("130"@[1] != "110"@[1]);
    assert("130"@[1] != "120"@[1]);
    assert("140"@[1] != "100"@[1]);
    assert("140"@[1] != "110"@[1]);
    assert("140"@[1] != "120"@[1]);
    assert("140"@[1] != "130"@[1]);
    assert("150"@[1] != "100"@[1]);
    assert("150"@[1] != "110"@[1]);
    assert("150"@[1] != "120"@[1]);
    assert("150"@[1] != "130"@[1]);
    assert("150"@[1] != "140"@[1]);
    assert("160"@[1] != "100"@[1]);
    assert("160"@[1] != "110"@[1]);
    assert("160"@[1] != "120"@[1]);
    assert("160"@[1] != "130"@[1]);
    assert("160"@[1] != "140"@[1]);
    assert("160"@[1] != "150"@[1]);
    assert("170"@[1] != "100"@[1]);
    assert("170"@[1] != "110"@[1]);
    assert("170"@[1] != "120"@[1]);
    assert("170"@[1] != "130"@[1]);
    assert("170"@[1] != "140"@[1]);
    assert("170"@[1] != "150"@[1]);
    assert("170"@[1] != "160"@[1]);
    assert("180"@[1] != "100"@[1]);
    assert("180"@[1] != "110"@[1]);
    assert("180"@[1] != "120"@[1]);
    assert("180"@[1] != "130"@[1]);
    assert("180"@[1] != "140"@[1]);
    assert("180"@[1] != "150"@[1]);
    assert("180"@[1] != "160"@[1]);
    assert("180"@[1] != "170"@[1]);
    assert("185"@[1] != "100"@[1]);
    assert("185"@[1] != "110"@[1]);
    assert("185"@[1] != "120"@[1]);
    assert("185"@[1] != "130"@[1]);
    assert("185"@[1] != "140"@[1]);
    assert("185"@[1] != "150"@[1]);
    assert("185"@[1] != "160"@[1]);
    assert("185"@[1] != "170"@[1]);
    assert("185"@[2] != "180"@[2]);
    assert("190"@[1] != "100"@[1]);
    assert("190"@[1] != "110"@[1]);
    assert("190"@[1] != "120"@[1]);
    assert("190"@[1] != "130"@[1]);
    assert("190"@[1] != "140"@[1]);
    assert("190"@[1] != "150"@[1]);
    assert("190"@[1] != "160"@[1]);
    assert("190"@[1] != "170"@[1]);
    assert("190"@[1] != "180"@[1]);
    assert("190"@[1] != "185"@[1]);
    assert("195"@[1] != "100"@[1]);
    assert("195"@[1] != "110"@[1]);
    assert("195"@[1] != "120"@[1]);
    assert("195"@[1] != "130"@[1]);
    assert("195"@[1] != "140"@[1]);
    assert("195"@[1] != "150"@[1]);
    assert("195"@[1] != "160"@[1]);
    assert("195"@[1] != "170"@[1]);
    assert("195"@[1] != "180"@[1]);
    assert("195"@[1] != "185"@[1]);
    assert("195"@[2] != "190"@[2]);
    assert("199"@[1] != "100"@[1]);
    assert("199"@[1] != "110"@[1]);
    assert("199"@[1] != "120"@[1]);
    assert("199"@[1] != "130"@[1]);
    assert("199"@[1] != "140"@[1]);
    assert("199"@[1] != "150"@[1]);
    assert("199"@[1] != "160"@[1]);
    assert("199"@[1] != "170"@[1]);
    assert("199"@[1] != "180"@[1]);
    assert("199"@[1] != "185"@[1]);
    assert("199"@[2] != "190"@[2]);
    assert("199"@[2] != "195"@[2]);
    assert("200"@[0] != "100"@[0]);
    assert("200"@[0] != "110"@[0]);
    assert("200"@[0] != "120"@[0]);
    assert("200"@[0] != "130"@[0]);
    assert("200"@[0] != "140"@[0]);
    assert("200"@[0] != "150"@[0]);
    assert("200"@[0] != "160"@[0]);
    assert("200"@[0] != "170"@[0]);
    assert("200"@[0] != "180"@[0]);
    assert("200"@[0] != "185"@[0]);
    assert("200"@[0] != "190"@[0]);
    assert("200"@[0] != "195"@[0]);
    assert("200"@[0] != "199"@[0]);
    assert("205"@[0] != "100"@[0]);
    assert("205"@[0] != "110"@[0]);
    assert("205"@[0] != "120"@[0]);
    assert("205"@[0] != "130"@[0]);
    assert("205"@[0] != "140"@[0]);
    assert("205"@[0] != "150"@[0]);
    assert("205"@[0] != "160"@[0]);
    assert("205"@[0] != "170"@[0]);
    assert("205"@[0] != "180"@[0]);
    assert("205"@[0] != "185"@[0]);
    assert("205"@[0] != "190"@[0]);
    assert("205"@[0] != "195"@[0]);
    assert("205"@[0] != "199"@[0]);
    assert("205"@[2] != "200"@[2]);
    assert("210"@[0] != "100"@[0]);
    assert("210"@[0] != "110"@[0]);
    assert("210"@[0] != "120"@[0]);
    assert("210"@[0] != "130"@[0]);
    assert("210"@[0] != "140"@[0]);
    assert("210"@[0] != "150"@[0]);
    assert("210"@[0] != "160"@[0]);
    assert("210"@[0] != "170"@[0]);
    assert("210"@[0] != "180"@[0]);
    assert("210"@[0] != "185"@[0]);
    assert("210"@[0] != "190"@[0]);
    assert("210"@[0] != "195"@[0]);
    assert("210"@[0] != "199"@[0]);
    assert("210"@[1] != "200"@[1]);
    assert("210"@[1] != "205"@[1]);
    assert("215"@[0] != "100"@[0]);
    assert("215"@[0] != "110"@[0]);
    assert("215"@[0] != "120"@[0]);
    assert("215"@[0] != "130"@[0]);
    assert("215"@[0] != "140"@[0]);
    assert("215"@[0] != "150"@[0]);
    assert("215"@[0] != "160"@[0]);
    assert("215"@[0] != "170"@[0]);
    assert("215"@[0] != "180"@[0]);
    assert("215"@[0] != "185"@[0]);
    assert("215"@[0] != "190"@[0]);
    assert("215"@[0] != "195"@[0]);
    assert("215"@[0] != "199"@[0]);
    assert("215"@[1] != "200"@[1]);
    assert("215"@[1] != "205"@[1]);
    assert("215"@[2] != "210"@[2]);
    assert("220"@[0] != "100"@[0]);
    assert("220"@[0] != "110"@[0]);
    assert("220"@[0] != "120"@[0]);
    assert("220"@[0] != "130"@[0]);
    assert("220"@[0] != "140"@[0]);
    assert("220"@[0] != "150"@[0]);
    assert("220"@[0] != "160"@[0]);
    assert("220"@[0] != "170"@[0]);
    assert("220"@[0] != "180"@[0]);
    assert("220"@[0] != "185"@[0]);
    assert("220"@[0] != "190"@[0]);
    assert("220"@[0] != "195"@[0]);
    assert("220"@[0] != "199"@[0]);
    assert("220"@[1] != "200"@[1]);
    assert("220"@[1] != "205"@[1]);
    assert("220"@[1] != "210"@[1]);
    assert("220"@[1] != "215"@[1]);
    assert("225"@[0] != "100"@[0]);
    assert("225"@[0] != "110"@[0]);
    assert("225"@[0] != "120"@[0]);
    assert("225"@[0] != "130"@[0]);
    assert("225"@[0] != "140"@[0]);
    assert("225"@[0] != "150"@[0]);
    assert("225"@[0] != "160"@[0]);
    assert("225"@[0] != "170"@[0]);
    assert("225"@[0] != "180"@[0]);
    assert("225"@[0] != "185"@[0]);
    assert("225"@[0] != "190"@[0]);
    assert("225"@[0] != "195"@[0]);
    assert("225"@[0] != "199"@[0]);
    assert("225"@[1] != "200"@[1]);
    assert("225"@[1] != "205"@[1]);
    assert("225"@[1] != "210"@[1]);
    assert("225"@[1] != "215"@[1]);
    assert("225"@[2] != "220"@[2]);
    assert("230"@[0] != "100"@[0]);
    assert("230"@[0] != "110"@[0]);
    assert("230"@[0] != "120"@[0]);
    assert("230"@[0] != "130"@[0]);
    assert("230"@[0] != "140"@[0]);
    assert("230"@[0] != "150"@[0]);
    assert("230"@[0] != "160"@[0]);
    assert("230"@[0] != "170"@[0]);
    assert("230"@[0] != "180"@[0]);
    assert("230"@[0] != "185"@[0]);
    assert("230"@[0] != "190"@[0]);
    assert("230"@[0] != "195"@[0]);
    assert("230"@[0] != "199"@[0]);
    assert("230"@[1] != "200"@[1]);
    assert("230"@[1] != "205"@[1]);
    assert("230"@[1] != "210"@[1]);
    assert("230"@[1] != "215"@[1]);
    assert("230"@[1] != "220"@[1]);
    assert("230"@[1] != "225"@[1]);
    assert("235"@[0] != "100"@[0]);
    assert("235"@[0] != "110"@[0]);
    assert("235"@[0] != "120"@[0]);
    assert("235"@[0] != "130"@[0]);
    assert("235"@[0] != "140"@[0]);
    assert("235"@[0] != "150"@[0]);
    assert("235"@[0] != "160"@[0]);
    assert("235"@[0] != "170"@[0]);
    assert("235"@[0] != "180"@[0]);
    assert("235"@[0] != "185"@[0]);
    assert("235"@[0] != "190"@[0]);
    assert("235"@[0] != "195"@[0]);
    assert("235"@[0] != "199"@[0]);
    assert("235"@[1] != "200"@[1]);
    assert("235"@[1] != "205"@[1]);
    assert("235"@[1] != "210"@[1]);
    assert("235"@[1] != "215"@[1]);
    assert("235"@[1] != "220"@[1]);
    assert("235"@[1] != "225"@[1]);
    assert("235"@[2] != "230"@[2]);
    assert("240"@[0] != "100"@[0]);
    assert("240"@[0] != "110"@[0]);
    assert("240"@[0] != "120"@[0]);
    assert("240"@[0] != "130"@[0]);
    assert("240"@[0] != "140"@[0]);
    assert("240"@[0] != "150"@[0]);
    assert("240"@[0] != "160"@[0]);
    assert("240"@[0] != "170"@[0]);
    assert("240"@[0] != "180"@[0]);
    assert("240"@[0] != "185"@[0]);
    assert("240"@[0] != "190"@[0]);
    assert("240"@[0] != "195"@[0]);
    assert("240"@[0] != "199"@[0]);
    assert("240"@[1] != "200"@[1]);
    assert("240"@[1] != "205"@[1]);
    assert("240"@[1] != "210"@[1]);
    assert("240"@[1] != "215"@[1]);
    assert("240"@[1] != "220"@[1]);
    assert("240"@[1] != "225"@[1]);
    assert("240"@[1] != "230"@[1]);
    assert("240"@[1] != "235"@[1]);
    assert("245"@[0] != "100"@[0]);
    assert("245"@[0] != "110"@[0]);
    assert("245"@[0] != "120"@[0]);
    assert("245"@[0] != "130"@[0]);
    assert("245"@[0] != "140"@[0]);
    assert("245"@[0] != "150"@[0]);
    assert("245"@[0] != "160"@[0]);
    assert("245"@[0] != "170"@[0]);
    assert("245"@[0] != "180"@[0]);
    assert("245"@[0] != "185"@[0]);
    assert("245"@[0] != "190"@[0]);
    assert("245"@[0] != "195"@[0]);
    assert("245"@[0] != "199"@[0]);
    assert("245"@[1] != "200"@[1]);
    assert("245"@[1] != "205"@[1]);
    assert("245"@[1] != "210"@[1]);
    assert("245"@[1] != "215"@[1]);
    assert("245"@[1] != "220"@[1]);
    assert("245"@[1] != "225"@[1]);
    assert("245"@[1] != "230"@[1]);
    assert("245"@[1] != "235"@[1]);
    assert("245"@[2] != "240"@[2]);
    assert("250"@[0] != "100"@[0]);
    assert("250"@[0] != "110"@[0]);
    assert("250"@[0] != "120"@[0]);
    assert("250"@[0] != "130"@[0]);
    assert("250"@[0] != "140"@[0]);
    assert("250"@[0] != "150"@[0]);
    assert("250"@[0] != "160"@[0]);
    assert("250"@[0] != "170"@[0]);
    assert("250"@[0] != "180"@[0]);
    assert("250"@[0] != "185"@[0]);
    assert("250"@[0] != "190"@[0]);
    assert("250"@[0] != "195"@[0]);
    assert("250"@[0] != "199"@[0]);
    assert("250"@[1] != "200"@[1]);
    assert("250"@[1] != "205"@[1]);
    assert("250"@[1] != "210"@[1]);
    assert("250"@[1] != "215"@[1]);
    assert("250"@[1] != "220"@[1]);
    assert("250"@[1] != "225"@[1]);
    assert("250"@[1] != "230"@[1]);
    assert("250"@[1] != "235"@[1]);
    assert("250"@[1] != "240"@[1]);
    assert("250"@[1] != "245"@[1]);
}

fn version_code(x: &str) -> (r: Option<MaimaiVersion>)
    ensures
        r == version_of_code(x@),
{
    if str_eq(x, "100") {
        Some(MaimaiVersion::Maimai)
    } else if str_eq(x, "110") {
        Some(MaimaiVersion::MaimaiPlus)
    } else if str_eq(x, "120") {
        Some(MaimaiVersion::Green)
    } else if str_eq(x, "130") {
        Some(MaimaiVersion::GreenPlus)
    } else if str_eq(x, "140") {
        Some(MaimaiVersion::Orange)
    } else if str_eq(x, "150") {
        Some(MaimaiVersion::OrangePlus)
    } else if str_eq(x, "160") {
        Some(MaimaiVersion::Pink)
    } else if str_eq(x, "170") {
        Some(MaimaiVersion::PinkPlus)
    } else if str_eq(x, "180") {
        Some(MaimaiVersion::Murasaki)
    } else if str_eq(x, "185") {
        Some(MaimaiVersion::MurasakiPlus)
    } else if str_eq(x, "190") {
        Some(MaimaiVersion::Milk)
    } else if str_eq(x, "195") {
        Some(MaimaiVersion::MilkPlus)
    } else if str_eq(x, "199") {
        Some(MaimaiVersion::Finale)
    } else if str_eq(x, "200") {
        Some(MaimaiVersion::Deluxe)
    } else if str_eq(x, "205") {
        Some(MaimaiVersion::DeluxePlus)
    } else if str_eq(x, "210") {
        Some(MaimaiVersion::Splash)
    } else if str_eq(x, "215") {
        Some(MaimaiVersion::SplashPlus)
    } else if str_eq(x, "220") {
        Some(MaimaiVersion::Universe)
    } else if str_eq(x, "225") {
        Some(MaimaiVersion::UniversePlus)
    } else if str_eq(x, "230") {
        Some(MaimaiVersion::Festival)
    } else if str_eq(x, "235") {
        Some(MaimaiVersion::FestivalPlus)
    } else if str_eq(x, "240") {
        Some(MaimaiVersion::Buddies)
    } else if str_eq(x, "245") {
        Some(MaimaiVersion::BuddiesPlus)
    } else if str_eq(x, "250") {
        Some(MaimaiVersion::Prism)
    } else {
        None
    }
}

/// What `Version::from_str` gives: a version code of three characters,
/// then a number from 0 to 99 as `u8::from_str` reads it.
pub open spec fn version_of_text(s: Seq<char>) -> Result<(MaimaiVersion, u8), OfficialSongError> {
    if s.len() < 3 || version_of_code(s.take(3)) is None {
        Err(OfficialSongError::UnknownVersion)
    } else {
        match parse_unsigned(s.skip(3), 255) {
            Some(v) => if v <= 99 {
                Ok((version_of_code(s.take(3))->0, v as u8))
            } else {
                Err(OfficialSongError::BadVersionSuffix)
            },
            None => Err(OfficialSongError::BadVersionSuffix),
        }
    }
}

impl Version {
    #[verifier::type_invariant]
    spec fn wf(self) -> bool {
        self.suffix <= 99
    }

    pub closed spec fn parts(self) -> (MaimaiVersion, u8) {
        (self.version, self.suffix)
    }

    pub fn version(&self) -> (r: MaimaiVersion)
        ensures
            r == self.parts().0,
    {
        self.version
    }

    pub fn suffix(&self) -> (r: u8)
        ensures
            r == self.parts().1,
            r <= 99,
    {
        proof {
            use_type_invariant(self);
        }
        self.suffix
    }

    /// Reads a version field such as "24015".
    pub fn from_str(value: &str) -> (r: Result<Version, OfficialSongError>)
        ensures
            match version_of_text(value@) {
                Ok(p) => r matches Ok(v) && v.parts() == p,
                Err(e) => r == Err::<Version, OfficialSongError>(e),
            },
    {
        let n = value.unicode_len();
        if n < 3 {
            return Err(OfficialSongError::UnknownVersion);
        }
        let version = match version_code(value.substring_char(0, 3)) {
            Some(v) => v,
            None => {
                return Err(OfficialSongError::UnknownVersion);
            },
        };
        match parse_unsigned_max(value.substring_char(3, n), 255) {
            Some(v) => if v <= 99 {
                Ok(Version { version, suffix: v as u8 })
            } else {
                Err(OfficialSongError::BadVersionSuffix)
            },
            None => Err(OfficialSongError::BadVersionSuffix),
        }
    }
}

/// The category that a category name of the list names, in Japanese or in
/// English.
pub open spec fn category_of_text(s: Seq<char>) -> Option<Category> {
    if s == "ゲーム＆バラエティ"@ || s == "GAME＆VARIETY"@ {
        Some(Category::GamesVariety)
    } else if s == "POPS＆アニメ"@ || s == "POPS＆ANIME"@ {
        Some(Category::PopsAnime)
    } else if s == "maimai"@ {
        Some(Category::MaimaiOriginal)
    } else if s == "niconico＆ボーカロイド"@ || s == "niconico＆VOCALOID™"@ {
        Some(Category::NiconicoVocaloid)
    } else if s == "オンゲキ＆CHUNITHM"@ {
        Some(Category::OngekiChunithm)
    } else if s == "東方Project"@ {
        Some(Category::TouhouProject)
    } else {
        None
    }
}

/// Each category heading of the official song list, in Japanese or in
/// English, names its own category.
pub proof fn lemma_category_of_text_names()
    ensures
        category_of_text(seq!['ゲ', 'ー', 'ム', '＆', 'バ', 'ラ', 'エ', 'テ', 'ィ']) == Some(Category::GamesVariety),
        category_of_text(seq!['G', 'A', 'M', 'E', '＆', 'V', 'A', 'R', 'I', 'E', 'T', 'Y']) == Some(Category::GamesVariety),
        category_of_text(seq!['P', 'O', 'P', 'S', '＆', 'ア', 'ニ', 'メ']) == Some(Category::PopsAnime),
        category_of_text(seq!['P', 'O', 'P', 'S', '＆', 'A', 'N', 'I', 'M', 'E']) == Some(Category::PopsAnime),
        category_of_text(seq!['m', 'a', 'i', 'm', 'a', 'i']) == Some(Category::MaimaiOriginal),
        category_of_text(seq!['n', 'i', 'c', 'o', 'n', 'i', 'c', 'o', '＆', 'ボ', 'ー', 'カ', 'ロ', 'イ', 'ド']) == Some(Category::NiconicoVocaloid),
        category_of_text(seq!['n', 'i', 'c', 'o', 'n', 'i', 'c', 'o', '＆', 'V', 'O', 'C', 'A', 'L', 'O', 'I', 'D', '™']) == Some(Category::NiconicoVocaloid),
        category_of_text(seq!['オ', 'ン', 'ゲ', 'キ', '＆', 'C', 'H', 'U', 'N', 'I', 'T', 'H', 'M']) == Some(Category::OngekiChunithm),
        category_of_text(seq!['東', '方', 'P', 'r', 'o', 'j', 'e', 'c', 't']) == Some(Category::TouhouProject),
{
    reveal_strlit("ゲーム＆バラエティ");
    assert("ゲーム＆バラエティ"@ =~= seq!['ゲ', 'ー', 'ム', '＆', 'バ', 'ラ', 'エ', 'テ', 'ィ']);
    reveal_strlit("GAME＆VARIETY");
    assert("GAME＆VARIETY"@ =~= seq!['G', 'A', 'M', 'E', '＆', 'V', 'A', 'R', 'I', 'E', 'T', 'Y']);
    reveal_strlit("POPS＆アニメ");
    assert("POPS＆アニメ"@ =~= seq!['P', 'O', 'P', 'S', '＆', 'ア', 'ニ', 'メ']);
    reveal_strlit("POPS＆ANIME");
    assert("POPS＆ANIME"@ =~= seq!['P', 'O', 'P', 'S', '＆', 'A', 'N', 'I', 'M', 'E']);
    reveal_strlit("maimai");
    assert("maimai"@ =~= seq!['m', 'a', 'i', 'm', 'a', 'i']);
    reveal_strlit("niconico＆ボーカロイド");
    assert("niconico＆ボーカロイド"@ =~= seq!['n', 'i', 'c', 'o', 'n', 'i', 'c', 'o', '＆', 'ボ', 'ー', 'カ', 'ロ', 'イ', 'ド']);
    reveal_strlit("niconico＆VOCALOID™");
    assert("niconico＆VOCALOID™"@ =~= seq!['n', 'i', 'c', 'o', 'n', 'i', 'c', 'o', '＆', 'V', 'O', 'C', 'A', 'L', 'O', 'I', 'D', '™']);
    reveal_strlit("オンゲキ＆CHUNITHM");
    assert("オンゲキ＆CHUNITHM"@ =~= seq!['オ', 'ン', 'ゲ', 'キ', '＆', 'C', 'H', 'U', 'N', 'I', 'T', 'H', 'M']);
    reveal_strlit("東方Project");
    assert("東方Project"@ =~= seq!['東', '方', 'P', 'r', 'o', 'j', 'e', 'c', 't']);
    assert("GAME＆VARIETY"@.len() != "ゲーム＆バラエティ"@.len());
    assert("POPS＆アニメ"@.len() != "ゲーム＆バラエティ"@.len());
    assert("POPS＆アニメ"@.len() != "GAME＆VARIETY"@.len());
    assert("POPS＆ANIME"@.len() != "ゲーム＆バラエティ"@.len());
    assert("POPS＆ANIME"@.len() != "GAME＆VARIETY"@.len());
    assert("POPS＆ANIME"@.len() != "POPS＆アニメ"@.len());
    assert("maimai"@.len() != "ゲーム＆バラエティ"@.len());
    assert("maimai"@.len() != "GAME＆VARIETY"@.len());
    assert("maimai"@.len() != "POPS＆アニメ"@.len());
    assert("maimai"@.len() != "POPS＆ANIME"@.len());
    assert("niconico＆ボーカロイド"@.len() != "ゲーム＆バラエティ"@.len());
    assert("niconico＆ボーカロイド"@.len() != "GAME＆VARIETY"@.len());
    assert("niconico＆ボーカロイド"@.len() != "POPS＆アニメ"@.len());
    assert("niconico＆ボーカロイド"@.len() != "POPS＆ANIME"@.len());
    assert("niconico＆ボーカロイド"@.len() != "maimai"@.len());
    assert("niconico＆VOCALOID™"@.len() != "ゲーム＆バラエティ"@.len());
    assert("niconico＆VOCALOID™"@.len() != "GAME＆VARIETY"@.len());
    assert("niconico＆VOCALOID™"@.len() != "POPS＆アニメ"@.len());
    assert("niconico＆VOCALOID™"@.len() != "POPS＆ANIME"@.len());
    assert("niconico＆VOCALOID™"@.len() != "maimai"@.len());
    assert("niconico＆VOCALOID™"@.len() != "niconico＆ボーカロイド"@.len());
    assert("オンゲキ＆CHUNITHM"@.len() != "ゲーム＆バラエティ"@.len());
    assert("オンゲキ＆CHUNITHM"@.len() != "GAME＆VARIETY"@.len());
    assert("オンゲキ＆CHUNITHM"@.len() != "POPS＆アニメ"@.len());
    assert("オンゲキ＆CHUNITHM"@.len() != "POPS＆ANIME"@.len());
    assert("オンゲキ＆CHUNITHM"@.len() != "maimai"@.len());
    assert("オンゲキ＆CHUNITHM"@.len() != "niconico＆ボーカロイド"@.len());
    assert("オンゲキ＆CHUNITHM"@.len() != "niconico＆VOCALOID™"@.len());
    assert("東方Project"@[0] != "ゲーム＆バラエティ"@[0]);
    assert("東方Project"@.len() != "GAME＆VARIETY"@.len());
    assert("東方Project"@.len() != "POPS＆アニメ"@.len());
    assert("東方Project"@.len() != "POPS＆ANIME"@.len());
    assert("東方Project"@.len() != "maimai"@.len());
    assert("東方Project"@.len() != "niconico＆ボーカロイド"@.len());
    assert("東方Project"@.len() != "niconico＆VOCALOID™"@.len());
    assert("東方Project"@.len() != "オンゲキ＆CHUNITHM"@.len());
}

/// Reads a category name.
pub fn category_from_str(s: &str) -> (r: Result<Category, OfficialSongError>)
    ensures
        match category_of_text(s@) {
            Some(c) => r == Ok::<Category, OfficialSongError>(c),
            None => r == Err::<Category, OfficialSongError>(OfficialSongError::UnknownCategory),
        },
{
    if str_eq(s, "ゲーム＆バラエティ") || str_eq(s, "GAME＆VARIETY") {
        Ok(Category::GamesVariety)
    } else if str_eq(s, "POPS＆アニメ") || str_eq(s, "POPS＆ANIME") {
        Ok(Category::PopsAnime)
    } else if str_eq(s, "maimai") {
        Ok(Category::MaimaiOriginal)
    } else if str_eq(s, "niconico＆ボーカロイド") || str_eq(s, "niconico＆VOCALOID™") {
        Ok(Category::NiconicoVocaloid)
    } else if str_eq(s, "オンゲキ＆CHUNITHM") {
        Ok(Category::OngekiChunithm)
    } else if str_eq(s, "東方Project") {
        Ok(Category::TouhouProject)
    } else {
        Err(OfficialSongError::UnknownCategory)
    }
}

pub open spec fn opt_str_view(o: Option<String>) -> Option<Seq<char>> {
    match o {
        Some(s) => Some(s@),
        None => None,
    }
}

/// A level field: the level it names, if it is given.
pub open spec fn level_field(o: Option<Seq<char>>) -> Option<Result<ScoreLevel, OfficialSongError>> {
    match o {
        None => None,
        Some(s) => Some(
            match parse_level_spec(s) {
                Ok(l) => Ok(l),
                Err(_) => Err(OfficialSongError::BadLevel),
            },
        ),
    }
}

/// What `Levels::parse` gives for the five level fields: none when all are
/// empty; the levels when BASIC to MASTER are given (read in order, the
/// first bad one is the error); an error otherwise.
pub open spec fn levels_of_fields(f: Seq<Option<Seq<char>>>) -> Result<
    Option<Levels>,
    OfficialSongError,
> {
    let l = |i: int| level_field(f[i]);
    if f[0] is None && f[1] is None && f[2] is None && f[3] is None && f[4] is None {
        Ok(None)
    } else if f[0] is Some && f[1] is Some && f[2] is Some && f[3] is Some {
        if l(0)->0 is Err || l(1)->0 is Err || l(2)->0 is Err || l(3)->0 is Err || (l(4) matches Some(
            x,
        ) && x is Err) {
            Err(OfficialSongError::BadLevel)
        } else {
            Ok(
                Some(
                    Levels {
                        basic: l(0)->0->Ok_0,
                        advanced: l(1)->0->Ok_0,
                        expert: l(2)->0->Ok_0,
                        master: l(3)->0->Ok_0,
                        re_master: match l(4) {
                            Some(x) => Some(x->Ok_0),
                            None => None,
                        },
                    },
                ),
            )
        }
    } else {
        Err(OfficialSongError::UnexpectedLevels)
    }
}

fn parse_level_field(o: &Option<String>) -> (r: Option<Result<ScoreLevel, OfficialSongError>>)
    ensures
        r == level_field(opt_str_view(*o)),
{
    match o {
        None => None,
        Some(s) => Some(
            match ScoreLevel::from_str(s.as_str()) {
                Ok(l) => Ok(l),
                Err(_) => Err(OfficialSongError::BadLevel),
            },
        ),
    }
}

impl Levels {
    /// Reads the five level fields of one generation, BASIC to Re:MASTER.
    pub fn parse(
        bas: &Option<String>,
        adv: &Option<String>,
        exp: &Option<String>,
        mas: &Option<String>,
        remas: &Option<String>,
    ) -> (r: Result<Option<Levels>, OfficialSongError>)
        ensures
            r == levels_of_fields(
                seq![
                    opt_str_view(*bas),
                    opt_str_view(*adv),
                    opt_str_view(*exp),
                    opt_str_view(*mas),
                    opt_str_view(*remas),
                ],
            ),
    {
        let ghost f = seq![
            opt_str_view(*bas),
            opt_str_view(*adv),
            opt_str_view(*exp),
            opt_str_view(*mas),
            opt_str_view(*remas),
        ];
        let b = parse_level_field(bas);
        let a = parse_level_field(adv);
        let e = parse_level_field(exp);
        let m = parse_level_field(mas);
        let r = parse_level_field(remas);
        assert(f[0] == opt_str_view(*bas) && f[1] == opt_str_view(*adv) && f[2] == opt_str_view(
            *exp,
        ) && f[3] == opt_str_view(*mas) && f[4] == opt_str_view(*remas));
        match (b, a, e, m) {
            (None, None, None, None) => {
                if r.is_none() {
                    Ok(None)
                } else {
                    Err(OfficialSongError::UnexpectedLevels)
                }
            },
            (Some(b), Some(a), Some(e), Some(m)) => {
                let b = match b {
                    Ok(x) => x,
                    Err(x) => {
                        return Err(x);
                    },
                };
                let a = match a {
                    Ok(x) => x,
                    Err(x) => {
                        return Err(x);
                    },
                };
                let e = match e {
                    Ok(x) => x,
                    Err(x) => {
                        return Err(x);
                    },
                };
                let m = match m {
                    Ok(x) => x,
                    Err(x) => {
                        return Err(x);
                    },
                };
                let re_master = match r {
                    None => None,
                    Some(Ok(x)) => Some(x),
                    Some(Err(x)) => {
                        return Err(x);
                    },
                };
                Ok(Some(Levels { basic: b, advanced: a, expert: e, master: m, re_master }))
            },
            _ => Err(OfficialSongError::UnexpectedLevels),
        }
    }
}

/// The utage chart that the utage fields describe: none when all three are
/// empty; with all three given, the level must end with "?".
pub open spec fn utage_of_fields(
    lev_utage: Option<Seq<char>>,
    comment: Option<Seq<char>>,
    kanji: Option<Seq<char>>,
) -> Result<Option<ScoreLevel>, OfficialSongError> {
    match (lev_utage, comment, kanji) {
        (Some(l), Some(_), Some(_)) => if l.len() > 0 && l.last() == '?' {
            match parse_level_spec(l.drop_last()) {
                Ok(x) => Ok(Some(x)),
                Err(_) => Err(OfficialSongError::BadLevel),
            }
        } else {
            Err(OfficialSongError::UtageLevelSuffix)
        },
        (None, None, None) => Ok(None),
        _ => Err(OfficialSongError::UnexpectedUtage),
    }
}

/// Reads the utage fields of a song.
pub fn parse_utage_score(
    lev_utage: Option<String>,
    comment: Option<String>,
    kanji: Option<String>,
    buddy: bool,
) -> (r: Result<Option<UtageScore>, OfficialSongError>)
    ensures
        match utage_of_fields(opt_str_view(lev_utage), opt_str_view(comment), opt_str_view(kanji)) {
            Err(e) => r == Err::<Option<UtageScore>, OfficialSongError>(e),
            Ok(None) => r == Ok::<Option<UtageScore>, OfficialSongError>(None),
            Ok(Some(level)) => r matches Ok(Some(u)) && u.level == level && u.comment.0@
                == comment->0@ && u.kanji.0@ == kanji->0@ && u.buddy == buddy
                && u.name_overwrite is None,
        },
{
    match (lev_utage, comment, kanji) {
        (Some(level), Some(comment), Some(kanji)) => {
            let n = level.as_str().unicode_len();
            if n == 0 || level.as_str().get_char(n - 1) != '?' {
                proof {
                    if n > 0 {
                        assert(level@.last() == level@[n - 1]);
                    }
                }
                return Err(OfficialSongError::UtageLevelSuffix);
            }
            assert(level@.last() == level@[n - 1]);
            let body = level.as_str().substring_char(0, n - 1);
            assert(body@ =~= level@.drop_last());
            match ScoreLevel::from_str(body) {
                Ok(l) => Ok(
                    Some(UtageScore::new(l, UtageComment(comment), UtageKindRaw(kanji), buddy, None)),
                ),
                Err(_) => Err(OfficialSongError::BadLevel),
            }
        },
        (None, None, None) => Ok(None),
        _ => Err(OfficialSongError::UnexpectedUtage),
    }
}

/// A flag field: empty, or the given mark.
pub open spec fn flag_of_field(o: Option<Seq<char>>, mark: Seq<char>) -> Option<bool> {
    match o {
        None => Some(false),
        Some(s) => if s == mark {
            Some(true)
        } else {
            None
        },
    }
}

fn read_flag(o: &Option<String>, mark: &str) -> (r: Option<bool>)
    ensures
        r == flag_of_field(opt_str_view(*o), mark@),
{
    match o {
        None => Some(false),
        Some(s) => if str_eq(s.as_str(), mark) {
            Some(true)
        } else {
            None
        },
    }
}

/// The release date field: none when empty or "000000", else a date read
/// as `%y%m%d`.
pub open spec fn release_of_field(o: Option<Seq<char>>) -> Result<
    Option<(i32, u32, u32)>,
    OfficialSongError,
> {
    match o {
        None => Ok(None),
        Some(s) => if s == "000000"@ {
            Ok(None)
        } else {
            match naive_date_of(s, "%y%m%d"@) {
                Some(d) => Ok(Some(d)),
                None => Err(OfficialSongError::BadRelease),
            }
        },
    }
}

/// The address of a song's image with the given file name.
pub open spec fn image_address(image_url: Seq<char>) -> Seq<char> {
    "https://maimaidx.jp/maimai-mobile/img/Music/"@ + image_url
}

/// The first error in reading an official song, in the order the fields
/// are read.
pub open spec fn official_song_error(raw: SongRaw) -> Option<OfficialSongError> {
    let standard = levels_of_fields(
        seq![
            opt_str_view(raw.lev_bas),
            opt_str_view(raw.lev_adv),
            opt_str_view(raw.lev_exp),
            opt_str_view(raw.lev_mas),
            opt_str_view(raw.lev_remas),
        ],
    );
    let deluxe = levels_of_fields(
        seq![
            opt_str_view(raw.dx_lev_bas),
            opt_str_view(raw.dx_lev_adv),
            opt_str_view(raw.dx_lev_exp),
            opt_str_view(raw.dx_lev_mas),
            opt_str_view(raw.dx_lev_remas),
        ],
    );
    let buddy = flag_of_field(opt_str_view(raw.buddy), "○"@);
    let utage = utage_of_fields(
        opt_str_view(raw.lev_utage),
        opt_str_view(raw.comment),
        opt_str_view(raw.kanji),
    );
    if standard is Err {
        Some(standard->Err_0)
    } else if deluxe is Err {
        Some(deluxe->Err_0)
    } else if buddy is None {
        Some(OfficialSongError::UnexpectedBuddy)
    } else if utage is Err {
        Some(utage->Err_0)
    } else if standard->Ok_0 is None && deluxe->Ok_0 is None {
        if raw.catcode@ == "宴会場"@ && utage->Ok_0 is Some {
            details_rest_error(raw)
        } else {
            Some(OfficialSongError::NoScore)
        }
    } else if utage->Ok_0 is None && !(buddy->0) {
        if category_of_text(raw.catcode@) is None {
            Some(OfficialSongError::UnknownCategory)
        } else {
            details_rest_error(raw)
        }
    } else {
        Some(OfficialSongError::OrdinaryWithUtage)
    }
}

/// The first error among the fields read after the charts.
pub open spec fn details_rest_error(raw: SongRaw) -> Option<OfficialSongError> {
    if url_text(image_address(raw.image_url@)) is None {
        Some(OfficialSongError::BadImage)
    } else if release_of_field(opt_str_view(raw.release)) is Err {
        Some(OfficialSongError::BadRelease)
    } else if version_of_text(raw.version@) is Err {
        Some(version_of_text(raw.version@)->Err_0)
    } else if flag_of_field(opt_str_view(raw.date), "NEW"@) is None {
        Some(OfficialSongError::UnexpectedDate)
    } else if flag_of_field(opt_str_view(raw.key), "○"@) is None {
        Some(OfficialSongError::UnexpectedKey)
    } else {
        None
    }
}

pub open spec fn ymd_opt(d: Option<(i32, u32, u32)>) -> Option<YearMonthDay> {
    match d {
        Some((y, m, dd)) => Some(YearMonthDay { year: y, month: m, day: dd }),
        None => None,
    }
}

/// The fields of a song read without error from `raw`, all but the charts.
pub open spec fn official_song_fields(raw: SongRaw, s: Song) -> bool {
    &&& s.title.0@ == raw.title@
    &&& s.title_kana.0@ == raw.title_kana@
    &&& s.artist.0@ == raw.artist@
    &&& s.image.0@ == url_text(image_address(raw.image_url@))->0
    &&& s.release == ymd_opt(release_of_field(opt_str_view(raw.release))->Ok_0)
    &&& s.sort == SortIndex(raw.sort)
    &&& s.version.parts() == version_of_text(raw.version@)->Ok_0
    &&& s.new == flag_of_field(opt_str_view(raw.date), "NEW"@)->0
    &&& s.locked == flag_of_field(opt_str_view(raw.key), "○"@)->0
}

/// The charts of a song read without error from `raw`.
pub open spec fn official_song_details(raw: SongRaw, d: ScoreDetails) -> bool {
    let standard = levels_of_fields(
        seq![
            opt_str_view(raw.lev_bas),
            opt_str_view(raw.lev_adv),
            opt_str_view(raw.lev_exp),
            opt_str_view(raw.lev_mas),
            opt_str_view(raw.lev_remas),
        ],
    )->Ok_0;
    let deluxe = levels_of_fields(
        seq![
            opt_str_view(raw.dx_lev_bas),
            opt_str_view(raw.dx_lev_adv),
            opt_str_view(raw.dx_lev_exp),
            opt_str_view(raw.dx_lev_mas),
            opt_str_view(raw.dx_lev_remas),
        ],
    )->Ok_0;
    let utage = utage_of_fields(
        opt_str_view(raw.lev_utage),
        opt_str_view(raw.comment),
        opt_str_view(raw.kanji),
    )->Ok_0;
    let buddy = flag_of_field(opt_str_view(raw.buddy), "○"@)->0;
    if standard is None && deluxe is None {
        d matches ScoreDetails::Utage(u) && u.level == utage->0 && u.comment.0@ == raw.comment->0@
            && u.kanji.0@ == raw.kanji->0@ && u.buddy == buddy && u.name_overwrite is None
    } else {
        d == ScoreDetails::Ordinary(
            OrdinaryScore { category: category_of_text(raw.catcode@)->0, standard, deluxe },
        )
    }
}

impl Song {
    /// Reads an entry of the official song list.
    pub fn try_from_raw(song: SongRaw) -> (r: Result<Song, OfficialSongError>)
        ensures
            match official_song_error(song) {
                Some(e) => r == Err::<Song, OfficialSongError>(e),
                None => r matches Ok(s) && official_song_fields(song, s) && official_song_details(
                    song,
                    s.details,
                ),
            },
    {
        let ghost raw = song;
        let standard = match Levels::parse(
            &song.lev_bas,
            &song.lev_adv,
            &song.lev_exp,
            &song.lev_mas,
            &song.lev_remas,
        ) {
            Ok(x) => x,
            Err(e) => {
                return Err(e);
            },
        };
        let deluxe = match Levels::parse(
            &song.dx_lev_bas,
            &song.dx_lev_adv,
            &song.dx_lev_exp,
            &song.dx_lev_mas,
            &song.dx_lev_remas,
        ) {
            Ok(x) => x,
            Err(e) => {
                return Err(e);
            },
        };
        let buddy = match read_flag(&song.buddy, "○") {
            Some(b) => b,
            None => {
                return Err(OfficialSongError::UnexpectedBuddy);
            },
        };
        let utage = match parse_utage_score(
            song.lev_utage.clone(),
            song.comment.clone(),
            song.kanji.clone(),
            buddy,
        ) {
            Ok(u) => u,
            Err(e) => {
                return Err(e);
            },
        };
        let details = if standard.is_none() && deluxe.is_none() {
            match utage {
                Some(u) => if str_eq(song.catcode.as_str(), "宴会場") {
                    ScoreDetails::Utage(u)
                } else {
                    return Err(OfficialSongError::NoScore);
                },
                None => {
                    return Err(OfficialSongError::NoScore);
                },
            }
        } else if utage.is_none() && !buddy {
            let category = match category_from_str(song.catcode.as_str()) {
                Ok(c) => c,
                Err(e) => {
                    return Err(e);
                },
            };
            ScoreDetails::Ordinary(OrdinaryScore { category, standard, deluxe })
        } else {
            return Err(OfficialSongError::OrdinaryWithUtage);
        };
        let mut address = String::new();
        push_str(&mut address, "https://maimaidx.jp/maimai-mobile/img/Music/");
        push_str(&mut address, song.image_url.as_str());
        let image = match parse_url(address.as_str()) {
            Some(u) => SongIcon(u),
            None => {
                return Err(OfficialSongError::BadImage);
            },
        };
        let release = match &song.release {
            None => None,
            Some(s) => if str_eq(s.as_str(), "000000") {
                None
            } else {
                match parse_naive_date(s.as_str(), "%y%m%d") {
                    Some((year, month, day)) => Some(YearMonthDay { year, month, day }),
                    None => {
                        return Err(OfficialSongError::BadRelease);
                    },
                }
            },
        };
        let version = match Version::from_str(song.version.as_str()) {
            Ok(v) => v,
            Err(e) => {
                return Err(e);
            },
        };
        let new = match read_flag(&song.date, "NEW") {
            Some(b) => b,
            None => {
                return Err(OfficialSongError::UnexpectedDate);
            },
        };
        let locked = match read_flag(&song.key, "○") {
            Some(b) => b,
            None => {
                return Err(OfficialSongError::UnexpectedKey);
            },
        };
        Ok(
            Song {
                title: SongName(song.title),
                title_kana: SongKana(song.title_kana),
                artist: ArtistName(song.artist),
                image,
                release,
                sort: SortIndex(song.sort),
                version,
                new,
                locked,
                details,
            },
        )
    }
}

} // verus!
