use vstd::prelude::*;

use crate::maimai::rating::{
    is_buddies_plus_or_later, lemma_constant_value_injective, lemma_mask_bits_injective,
    to_lv_spec, valid_level, CandidateBitmask, ScoreConstant, ScoreLevel,
};
use crate::maimai::schema::latest::{
    parse_url, url_text, ScoreDifficulty, ScoreGeneration, SongIcon, SongName,
};
use crate::maimai::version::{version_at, MaimaiVersion};
use crate::text::push_str;

verus! {

/// Why an entry of the level table could not be read.
#[derive(Clone, Copy, PartialEq, Eq, Structural, Debug)]
pub enum InLvError {
    /// A known constant outside 1.0 to 15.0.
    OutOfRangeKnown,
    /// An unknown level whose fraction is neither .0 nor .6/.7.
    AbsurdFraction,
    /// An unknown level outside the levels of the game.
    OutOfRangeUnknown,
    /// A candidate mask that is no whole number.
    FractionalMask,
    /// A candidate mask above 1024.
    TooLargeMask,
    /// A song with neither five nor six level entries.
    UnexpectedLength,
    /// Six entries, but the fifth is not zero.
    NonzeroFifth,
    /// A generation other than 0 (standard) or 1 (DX).
    UnexpectedGeneration(u8),
    /// A version number that names no version.
    UnknownVersion(i8),
    /// The icon makes no valid address.
    BadIcon,
}

/// A number of the level table, as read from its JSON: whether it is above
/// zero, its absolute value in tenths (rounded, saturated at 255), the
/// number itself when it is a whole number from 0 to 65535, and whether it
/// is negligibly close to zero.
#[derive(Clone, Copy, PartialEq, Eq, Structural, Debug)]
pub struct RawLevel {
    pub positive: bool,
    pub tenths: u8,
    pub whole: Option<u16>,
    pub negligible: bool,
}

/// A level as the table gives it: the exact constant when it is known,
/// else only the displayed level.
#[derive(Clone, Copy, PartialEq, Eq, Structural, Debug)]
pub enum InternalScoreLevel {
    Unknown(ScoreLevel),
    Known(ScoreConstant),
}

/// What a table number stands for as a level: a positive number is a known
/// constant; zero or a negative one is an unknown level, whose fraction .6
/// or .7 means "+".
pub open spec fn level_of_raw(raw: RawLevel) -> Result<InternalScoreLevel, InLvError> {
    if raw.positive {
        if 10 <= raw.tenths <= 150 {
            Ok(InternalScoreLevel::Known(constant_with_value(raw.tenths)))
        } else {
            Err(InLvError::OutOfRangeKnown)
        }
    } else {
        let f = raw.tenths % 10;
        if f != 0 && f != 6 && f != 7 {
            Err(InLvError::AbsurdFraction)
        } else if valid_level(raw.tenths / 10, f != 0) {
            Ok(InternalScoreLevel::Unknown(ScoreLevel { level: raw.tenths / 10, plus: f != 0 }))
        } else {
            Err(InLvError::OutOfRangeUnknown)
        }
    }
}

/// The score constant with the given value in tenths.
pub open spec fn constant_with_value(v: u8) -> ScoreConstant {
    choose|c: ScoreConstant| c.value() == v
}

/// What a table number stands for as a candidate mask: a whole number up
/// to 1024.
pub open spec fn mask_of_raw(raw: RawLevel) -> Result<CandidateBitmask, InLvError> {
    match raw.whole {
        None => Err(InLvError::FractionalMask),
        Some(m) => if m > 1024 {
            Err(InLvError::TooLargeMask)
        } else {
            Ok(mask_with_bits(m))
        },
    }
}

pub open spec fn mask_with_bits(m: u16) -> CandidateBitmask {
    choose|b: CandidateBitmask| b.bits_value() == m
}

/// The kind of level table: exact levels or candidate masks.
pub trait InLvKind {
    type Value: Copy;

    spec fn value_of(raw: RawLevel) -> Result<Self::Value, InLvError>;

    fn convert(raw: RawLevel) -> (r: Result<Self::Value, InLvError>)
        ensures
            r == Self::value_of(raw),
    ;
}

/// Tables of levels.
#[derive(Clone, Copy, PartialEq, Eq, PartialOrd, Ord, Hash, Debug)]
pub struct Levels;

/// Tables of candidate masks.
#[derive(Clone, Copy, PartialEq, Eq, PartialOrd, Ord, Hash, Debug)]
pub struct Bitmask;

impl InLvKind for Levels {
    type Value = InternalScoreLevel;

    open spec fn value_of(raw: RawLevel) -> Result<InternalScoreLevel, InLvError> {
        level_of_raw(raw)
    }

    fn convert(raw: RawLevel) -> (r: Result<InternalScoreLevel, InLvError>) {
        InternalScoreLevel::from_raw(raw)
    }
}

impl InLvKind for Bitmask {
    type Value = CandidateBitmask;

    open spec fn value_of(raw: RawLevel) -> Result<CandidateBitmask, InLvError> {
        mask_of_raw(raw)
    }

    fn convert(raw: RawLevel) -> (r: Result<CandidateBitmask, InLvError>) {
        match raw.whole {
            None => Err(InLvError::FractionalMask),
            Some(m) => if m > 1024 {
                Err(InLvError::TooLargeMask)
            } else {
                let b = CandidateBitmask::new(m);
                proof {
                    lemma_mask_bits_injective(b, mask_with_bits(m));
                }
                Ok(b)
            },
        }
    }
}

impl InternalScoreLevel {
    /// Reads a number of the level table.
    pub fn from_raw(raw: RawLevel) -> (r: Result<InternalScoreLevel, InLvError>)
        ensures
            r == level_of_raw(raw),
    {
        if raw.positive {
            match ScoreConstant::try_from_u8(raw.tenths) {
                Ok(c) => {
                    proof {
                        lemma_constant_value_injective(c, constant_with_value(raw.tenths));
                    }
                    Ok(InternalScoreLevel::Known(c))
                },
                Err(_) => Err(InLvError::OutOfRangeKnown),
            }
        } else {
            let f = raw.tenths % 10;
            if f != 0 && f != 6 && f != 7 {
                return Err(InLvError::AbsurdFraction);
            }
            match ScoreLevel::new(raw.tenths / 10, f != 0) {
                Ok(l) => Ok(InternalScoreLevel::Unknown(l)),
                Err(_) => Err(InLvError::OutOfRangeUnknown),
            }
        }
    }

    /// The constant, when it is known.
    pub fn get_if_unique(self) -> (r: Option<ScoreConstant>)
        ensures
            r == match self {
                InternalScoreLevel::Unknown(_) => None,
                InternalScoreLevel::Known(x) => Some(x),
            },
    {
        match self {
            InternalScoreLevel::Unknown(_) => None,
            InternalScoreLevel::Known(x) => Some(x),
        }
    }

    pub fn is_unique(self) -> (r: bool)
        ensures
            r == (self is Known),
    {
        self.get_if_unique().is_some()
    }

    /// The displayed level in `version`.
    pub fn into_level(self, version: MaimaiVersion) -> (r: ScoreLevel)
        ensures
            r == match self {
                InternalScoreLevel::Unknown(v) => v,
                InternalScoreLevel::Known(v) => to_lv_spec(
                    v.value() as int,
                    is_buddies_plus_or_later(version),
                ),
            },
    {
        match self {
            InternalScoreLevel::Unknown(v) => v,
            InternalScoreLevel::Known(v) => v.to_lv(version),
        }
    }
}

/// The level of one chart and its place in the table's list.
pub struct InternalScoreLevelEntry<K: InLvKind> {
    pub value: K::Value,
    pub index: usize,
}

impl<K: InLvKind> Clone for InternalScoreLevelEntry<K> {
    fn clone(&self) -> (r: Self)
        ensures
            r == *self,
    {
        InternalScoreLevelEntry { value: self.value, index: self.index }
    }
}

impl<K: InLvKind> Copy for InternalScoreLevelEntry<K> {
}

impl<K: InLvKind> InternalScoreLevelEntry<K> {
    pub fn value(&self) -> (r: K::Value)
        ensures
            r == self.value,
    {
        self.value
    }

    pub fn index(&self) -> (r: usize)
        ensures
            r == self.index,
    {
        self.index
    }
}

/// The levels of the charts of a song.
pub struct ScoreLevels<K: InLvKind> {
    pub basic: InternalScoreLevelEntry<K>,
    pub advanced: InternalScoreLevelEntry<K>,
    pub expert: InternalScoreLevelEntry<K>,
    pub master: InternalScoreLevelEntry<K>,
    pub re_master: Option<InternalScoreLevelEntry<K>>,
}

impl<K: InLvKind> Clone for ScoreLevels<K> {
    fn clone(&self) -> (r: Self)
        ensures
            r == *self,
    {
        ScoreLevels {
            basic: self.basic,
            advanced: self.advanced,
            expert: self.expert,
            master: self.master,
            re_master: self.re_master,
        }
    }
}

impl<K: InLvKind> Copy for ScoreLevels<K> {
}

/// The charts with their levels, easiest first; Re:MASTER only when there is one.
pub open spec fn score_levels_list<K: InLvKind>(l: ScoreLevels<K>) -> Seq<
    (ScoreDifficulty, InternalScoreLevelEntry<K>),
> {
    seq![
        (ScoreDifficulty::Basic, l.basic),
        (ScoreDifficulty::Advanced, l.advanced),
        (ScoreDifficulty::Expert, l.expert),
        (ScoreDifficulty::Master, l.master),
    ] + match l.re_master {
        Some(x) => seq![(ScoreDifficulty::ReMaster, x)],
        None => Seq::empty(),
    }
}

impl<K: InLvKind> ScoreLevels<K> {
    /// The level of a chart; none for a missing Re:MASTER or for utage.
    pub fn get(&self, difficulty: ScoreDifficulty) -> (r: Option<K::Value>)
        ensures
            r == match difficulty {
                ScoreDifficulty::Basic => Some(self.basic.value),
                ScoreDifficulty::Advanced => Some(self.advanced.value),
                ScoreDifficulty::Expert => Some(self.expert.value),
                ScoreDifficulty::Master => Some(self.master.value),
                ScoreDifficulty::ReMaster => match self.re_master {
                    Some(x) => Some(x.value),
                    None => None,
                },
                ScoreDifficulty::Utage => None,
            },
    {
        match difficulty {
            ScoreDifficulty::Basic => Some(self.basic.value),
            ScoreDifficulty::Advanced => Some(self.advanced.value),
            ScoreDifficulty::Expert => Some(self.expert.value),
            ScoreDifficulty::Master => Some(self.master.value),
            ScoreDifficulty::ReMaster => match self.re_master {
                Some(x) => Some(x.value),
                None => None,
            },
            ScoreDifficulty::Utage => None,
        }
    }

    /// The charts with their levels, easiest first.
    pub fn iter(&self) -> (r: Vec<(ScoreDifficulty, InternalScoreLevelEntry<K>)>)
        ensures
            r@ == score_levels_list(*self),
    {
        let mut v = Vec::new();
        v.push((ScoreDifficulty::Basic, self.basic));
        v.push((ScoreDifficulty::Advanced, self.advanced));
        v.push((ScoreDifficulty::Expert, self.expert));
        v.push((ScoreDifficulty::Master, self.master));
        match self.re_master {
            Some(x) => v.push((ScoreDifficulty::ReMaster, x)),
            None => {},
        }
        assert(v@ =~= score_levels_list(*self));
        v
    }
}

/// A song of the level table as its JSON holds it.
pub struct SongRaw {
    /// 0 for standard, 1 for DX.
    pub dx: u8,
    /// The version number.
    pub v: i8,
    /// The levels of BASIC to MASTER, then Re:MASTER; a sixth entry, after a
    /// zero, for Re:MASTER.
    pub lv: Vec<RawLevel>,
    pub n: String,
    /// The name shown in abbreviated lists, when it differs.
    pub nn: Option<String>,
    /// The file name of the cover art.
    pub ico: String,
}

/// A song of the level table.
pub struct Song<K: InLvKind> {
    pub generation: ScoreGeneration,
    pub version: MaimaiVersion,
    pub levels: ScoreLevels<K>,
    pub song_name: SongName,
    pub song_name_abbrev: String,
    pub icon: SongIcon,
}

/// The address of the cover art with the given file name.
pub open spec fn icon_address(ico: Seq<char>) -> Seq<char> {
    "https://maimaidx.jp/maimai-mobile/img/Music/"@ + ico + ".png"@
}

/// The generation a table entry names.
pub open spec fn generation_of_raw(dx: u8) -> Option<ScoreGeneration> {
    if dx == 0 {
        Some(ScoreGeneration::Standard)
    } else if dx == 1 {
        Some(ScoreGeneration::Deluxe)
    } else {
        None
    }
}

/// The version a table entry names (by the absolute value of its number).
pub open spec fn version_of_raw(v: i8) -> Option<MaimaiVersion> {
    version_at(if v < 0 { -v } else { v as int })
}

/// The Re:MASTER entry of a table song: none when there are five entries
/// and the fifth is zero; the fifth when it is not; the sixth when there are
/// six entries and the fifth is zero.
pub open spec fn re_master_of_raw<K: InLvKind>(lv: Seq<RawLevel>) -> Result<
    Option<InternalScoreLevelEntry<K>>,
    InLvError,
> {
    let zero = lv[4].negligible;
    if lv.len() == 6 {
        if !zero {
            Err(InLvError::NonzeroFifth)
        } else {
            match K::value_of(lv[5]) {
                Ok(v) => Ok(Some(InternalScoreLevelEntry { value: v, index: 5 })),
                Err(e) => Err(e),
            }
        }
    } else if lv.len() == 5 {
        if zero {
            Ok(None)
        } else {
            match K::value_of(lv[4]) {
                Ok(v) => Ok(Some(InternalScoreLevelEntry { value: v, index: 4 })),
                Err(e) => Err(e),
            }
        }
    } else {
        Err(InLvError::UnexpectedLength)
    }
}

/// The first error in reading a table song, in the order the fields are
/// read: Re:MASTER, generation, version, BASIC to MASTER, icon.
pub open spec fn song_raw_error<K: InLvKind>(raw: SongRaw) -> Option<InLvError> {
    let lv = raw.lv@;
    if re_master_of_raw::<K>(lv) is Err {
        Some(re_master_of_raw::<K>(lv)->Err_0)
    } else if generation_of_raw(raw.dx) is None {
        Some(InLvError::UnexpectedGeneration(raw.dx))
    } else if version_of_raw(raw.v) is None {
        Some(InLvError::UnknownVersion(raw.v))
    } else if K::value_of(lv[0]) is Err {
        Some(K::value_of(lv[0])->Err_0)
    } else if K::value_of(lv[1]) is Err {
        Some(K::value_of(lv[1])->Err_0)
    } else if K::value_of(lv[2]) is Err {
        Some(K::value_of(lv[2])->Err_0)
    } else if K::value_of(lv[3]) is Err {
        Some(K::value_of(lv[3])->Err_0)
    } else if url_text(icon_address(raw.ico@)) is None {
        Some(InLvError::BadIcon)
    } else {
        None
    }
}

fn entry<K: InLvKind>(lv: &Vec<RawLevel>, index: usize) -> (r: Result<
    InternalScoreLevelEntry<K>,
    InLvError,
>)
    requires
        index < lv@.len(),
    ensures
        match K::value_of(lv@[index as int]) {
            Ok(v) => r == Ok::<InternalScoreLevelEntry<K>, InLvError>(
                InternalScoreLevelEntry { value: v, index },
            ),
            Err(e) => r == Err::<InternalScoreLevelEntry<K>, InLvError>(e),
        },
{
    match K::convert(lv[index]) {
        Ok(value) => Ok(InternalScoreLevelEntry { value, index }),
        Err(e) => Err(e),
    }
}

impl<K: InLvKind> Song<K> {
    /// Reads a song of the level table.
    pub fn try_from_raw(raw: SongRaw) -> (r: Result<Song<K>, InLvError>)
        requires
            raw.lv@.len() >= 5,
            raw.v != i8::MIN,
        ensures
            match song_raw_error::<K>(raw) {
                Some(e) => r == Err::<Song<K>, InLvError>(e),
                None => r matches Ok(s) && {
                    &&& s.generation == generation_of_raw(raw.dx)->0
                    &&& s.version == version_of_raw(raw.v)->0
                    &&& s.levels.basic == InternalScoreLevelEntry::<K> {
                        value: K::value_of(raw.lv@[0])->Ok_0,
                        index: 0,
                    }
                    &&& s.levels.advanced == InternalScoreLevelEntry::<K> {
                        value: K::value_of(raw.lv@[1])->Ok_0,
                        index: 1,
                    }
                    &&& s.levels.expert == InternalScoreLevelEntry::<K> {
                        value: K::value_of(raw.lv@[2])->Ok_0,
                        index: 2,
                    }
                    &&& s.levels.master == InternalScoreLevelEntry::<K> {
                        value: K::value_of(raw.lv@[3])->Ok_0,
                        index: 3,
                    }
                    &&& s.levels.re_master == re_master_of_raw::<K>(raw.lv@)->Ok_0
                    &&& s.song_name.0@ == raw.n@
                    &&& s.song_name_abbrev@ == match raw.nn {
                        Some(nn) => nn@,
                        None => raw.n@,
                    }
                    &&& s.icon.0@ == url_text(icon_address(raw.ico@))->0
                },
            },
    {
        let zero = raw.lv[4].negligible;
        let re_master = if raw.lv.len() == 6 {
            if !zero {
                return Err(InLvError::NonzeroFifth);
            }
            match entry::<K>(&raw.lv, 5) {
                Ok(e) => Some(e),
                Err(e) => {
                    return Err(e);
                },
            }
        } else if raw.lv.len() == 5 {
            if zero {
                None
            } else {
                match entry::<K>(&raw.lv, 4) {
                    Ok(e) => Some(e),
                    Err(e) => {
                        return Err(e);
                    },
                }
            }
        } else {
            return Err(InLvError::UnexpectedLength);
        };
        let generation = if raw.dx == 0 {
            ScoreGeneration::Standard
        } else if raw.dx == 1 {
            ScoreGeneration::Deluxe
        } else {
            return Err(InLvError::UnexpectedGeneration(raw.dx));
        };
        let version = match MaimaiVersion::try_from_i8(raw.v) {
            Ok(v) => v,
            Err(_) => {
                return Err(InLvError::UnknownVersion(raw.v));
            },
        };
        let basic = match entry::<K>(&raw.lv, 0) {
            Ok(e) => e,
            Err(e) => {
                return Err(e);
            },
        };
        let advanced = match entry::<K>(&raw.lv, 1) {
            Ok(e) => e,
            Err(e) => {
                return Err(e);
            },
        };
        let expert = match entry::<K>(&raw.lv, 2) {
            Ok(e) => e,
            Err(e) => {
                return Err(e);
            },
        };
        let master = match entry::<K>(&raw.lv, 3) {
            Ok(e) => e,
            Err(e) => {
                return Err(e);
            },
        };
        let song_name_abbrev = match &raw.nn {
            Some(nn) => nn.clone(),
            None => raw.n.clone(),
        };
        let mut address = String::new();
        push_str(&mut address, "https://maimaidx.jp/maimai-mobile/img/Music/");
        push_str(&mut address, raw.ico.as_str());
        push_str(&mut address, ".png");
        let icon = match parse_url(address.as_str()) {
            Some(u) => SongIcon(u),
            None => {
                return Err(InLvError::BadIcon);
            },
        };
        Ok(
            Song {
                generation,
                version,
                levels: ScoreLevels { basic, advanced, expert, master, re_master },
                song_name: SongName(raw.n),
                song_name_abbrev,
                icon,
            },
        )
    }
}

} // verus!
