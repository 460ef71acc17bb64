use vstd::prelude::*;

verus! {

/// The game versions, oldest first.
#[derive(Clone, Copy, PartialEq, Eq, Structural, PartialOrd, Ord, Hash, Debug)]
pub enum MaimaiVersion {
    Maimai,
    MaimaiPlus,
    Green,
    GreenPlus,
    Orange,
    OrangePlus,
    Pink,
    PinkPlus,
    Murasaki,
    MurasakiPlus,
    Milk,
    MilkPlus,
    Finale,
    Deluxe,
    DeluxePlus,
    Splash,
    SplashPlus,
    Universe,
    UniversePlus,
    Festival,
    FestivalPlus,
    Buddies,
    BuddiesPlus,
    Prism,
    PrismPlus,
}

/// A calendar date given by its year, month (1-12) and day (1-31).
#[derive(Clone, Copy, PartialEq, Eq, Structural, PartialOrd, Ord, Hash, Debug)]
pub struct YearMonthDay {
    pub year: i32,
    pub month: u32,
    pub day: u32,
}

/// Chronological order of dates.
pub open spec fn ymd_lt(a: YearMonthDay, b: YearMonthDay) -> bool {
    a.year < b.year || (a.year == b.year && (a.month < b.month || (a.month == b.month
        && a.day < b.day)))
}

/// `a < b` in chronological order.
pub fn ymd_less(a: YearMonthDay, b: YearMonthDay) -> (r: bool)
    ensures
        r == ymd_lt(a, b),
{
    a.year < b.year || (a.year == b.year && (a.month < b.month || (a.month == b.month && a.day
        < b.day)))
}

/// The number of versions.
pub const NUM_VERSIONS: i8 = 25;

/// Position of a version in release order, starting at 0.
pub open spec fn version_index(v: MaimaiVersion) -> int {
    match v {
        MaimaiVersion::Maimai => 0,
        MaimaiVersion::MaimaiPlus => 1,
        MaimaiVersion::Green => 2,
        MaimaiVersion::GreenPlus => 3,
        MaimaiVersion::Orange => 4,
        MaimaiVersion::OrangePlus => 5,
        MaimaiVersion::Pink => 6,
        MaimaiVersion::PinkPlus => 7,
        MaimaiVersion::Murasaki => 8,
        MaimaiVersion::MurasakiPlus => 9,
        MaimaiVersion::Milk => 10,
        MaimaiVersion::MilkPlus => 11,
        MaimaiVersion::Finale => 12,
        MaimaiVersion::Deluxe => 13,
        MaimaiVersion::DeluxePlus => 14,
        MaimaiVersion::Splash => 15,
        MaimaiVersion::SplashPlus => 16,
        MaimaiVersion::Universe => 17,
        MaimaiVersion::UniversePlus => 18,
        MaimaiVersion::Festival => 19,
        MaimaiVersion::FestivalPlus => 20,
        MaimaiVersion::Buddies => 21,
        MaimaiVersion::BuddiesPlus => 22,
        MaimaiVersion::Prism => 23,
        MaimaiVersion::PrismPlus => 24,
    }
}

/// The version at a position in release order.
pub open spec fn version_at(i: int) -> Option<MaimaiVersion> {
    if i == 0 { Some(MaimaiVersion::Maimai) }
    else if i == 1 { Some(MaimaiVersion::MaimaiPlus) }
    else if i == 2 { Some(MaimaiVersion::Green) }
    else if i == 3 { Some(MaimaiVersion::GreenPlus) }
    else if i == 4 { Some(MaimaiVersion::Orange) }
    else if i == 5 { Some(MaimaiVersion::OrangePlus) }
    else if i == 6 { Some(MaimaiVersion::Pink) }
    else if i == 7 { Some(MaimaiVersion::PinkPlus) }
    else if i == 8 { Some(MaimaiVersion::Murasaki) }
    else if i == 9 { Some(MaimaiVersion::MurasakiPlus) }
    else if i == 10 { Some(MaimaiVersion::Milk) }
    else if i == 11 { Some(MaimaiVersion::MilkPlus) }
    else if i == 12 { Some(MaimaiVersion::Finale) }
    else if i == 13 { Some(MaimaiVersion::Deluxe) }
    else if i == 14 { Some(MaimaiVersion::DeluxePlus) }
    else if i == 15 { Some(MaimaiVersion::Splash) }
    else if i == 16 { Some(MaimaiVersion::SplashPlus) }
    else if i == 17 { Some(MaimaiVersion::Universe) }
    else if i == 18 { Some(MaimaiVersion::UniversePlus) }
    else if i == 19 { Some(MaimaiVersion::Festival) }
    else if i == 20 { Some(MaimaiVersion::FestivalPlus) }
    else if i == 21 { Some(MaimaiVersion::Buddies) }
    else if i == 22 { Some(MaimaiVersion::BuddiesPlus) }
    else if i == 23 { Some(MaimaiVersion::Prism) }
    else if i == 24 { Some(MaimaiVersion::PrismPlus) }
    else { None }
}

/// `a` was released before `b`.
pub open spec fn version_lt(a: MaimaiVersion, b: MaimaiVersion) -> bool {
    version_index(a) < version_index(b)
}

/// The first day of a version (the game switches over at 06:00 that day).
pub open spec fn start_date_spec(v: MaimaiVersion) -> (int, int, int) {
    match v {
        MaimaiVersion::Maimai => (2012, 7, 12),
        MaimaiVersion::MaimaiPlus => (2012, 12, 13),
        MaimaiVersion::Green => (2013, 7, 11),
        MaimaiVersion::GreenPlus => (2014, 2, 26),
        MaimaiVersion::Orange => (2014, 9, 18),
        MaimaiVersion::OrangePlus => (2015, 3, 19),
        MaimaiVersion::Pink => (2015, 12, 9),
        MaimaiVersion::PinkPlus => (2016, 6, 30),
        MaimaiVersion::Murasaki => (2016, 12, 14),
        MaimaiVersion::MurasakiPlus => (2017, 6, 22),
        MaimaiVersion::Milk => (2017, 12, 14),
        MaimaiVersion::MilkPlus => (2018, 6, 21),
        MaimaiVersion::Finale => (2018, 12, 13),
        MaimaiVersion::Deluxe => (2019, 7, 11),
        MaimaiVersion::DeluxePlus => (2020, 1, 23),
        MaimaiVersion::Splash => (2020, 9, 17),
        MaimaiVersion::SplashPlus => (2021, 3, 18),
        MaimaiVersion::Universe => (2021, 9, 16),
        MaimaiVersion::UniversePlus => (2022, 3, 24),
        MaimaiVersion::Festival => (2022, 9, 15),
        MaimaiVersion::FestivalPlus => (2023, 3, 23),
        MaimaiVersion::Buddies => (2023, 9, 14),
        MaimaiVersion::BuddiesPlus => (2024, 3, 21),
        MaimaiVersion::Prism => (2024, 9, 12),
        MaimaiVersion::PrismPlus => (2024, 3, 13),
    }
}

pub open spec fn ymd_of(t: (int, int, int)) -> YearMonthDay {
    YearMonthDay { year: t.0 as i32, month: t.1 as u32, day: t.2 as u32 }
}

/// `x` lies in version `v`: on or after its first day and before the first
/// day of the next version (if there is one).
pub open spec fn date_in_version(v: MaimaiVersion, x: YearMonthDay) -> bool {
    &&& !ymd_lt(x, ymd_of(start_date_spec(v)))
    &&& match version_at(version_index(v) + 1) {
        None => true,
        Some(n) => ymd_lt(x, ymd_of(start_date_spec(n))),
    }
}

/// The first version, counting from number `i` in release order, in which
/// the date lies.
pub open spec fn version_of_date_from(x: YearMonthDay, i: int) -> Option<MaimaiVersion>
    decreases NUM_VERSIONS - i,
{
    if i < 0 || i >= NUM_VERSIONS {
        None
    } else if date_in_version(version_at(i)->0, x) {
        version_at(i)
    } else {
        version_of_date_from(x, i + 1)
    }
}

/// The first version, in release order, in which the date lies.
pub open spec fn version_of_date(x: YearMonthDay) -> Option<MaimaiVersion> {
    version_of_date_from(x, 0)
}

impl MaimaiVersion {
    /// The version number, 0 for the first version.
    pub fn to_i8(self) -> (r: i8)
        ensures
            r == version_index(self),
    {
        match self {
            MaimaiVersion::Maimai => 0,
            MaimaiVersion::MaimaiPlus => 1,
            MaimaiVersion::Green => 2,
            MaimaiVersion::GreenPlus => 3,
            MaimaiVersion::Orange => 4,
            MaimaiVersion::OrangePlus => 5,
            MaimaiVersion::Pink => 6,
            MaimaiVersion::PinkPlus => 7,
            MaimaiVersion::Murasaki => 8,
            MaimaiVersion::MurasakiPlus => 9,
            MaimaiVersion::Milk => 10,
            MaimaiVersion::MilkPlus => 11,
            MaimaiVersion::Finale => 12,
            MaimaiVersion::Deluxe => 13,
            MaimaiVersion::DeluxePlus => 14,
            MaimaiVersion::Splash => 15,
            MaimaiVersion::SplashPlus => 16,
            MaimaiVersion::Universe => 17,
            MaimaiVersion::UniversePlus => 18,
            MaimaiVersion::Festival => 19,
            MaimaiVersion::FestivalPlus => 20,
            MaimaiVersion::Buddies => 21,
            MaimaiVersion::BuddiesPlus => 22,
            MaimaiVersion::Prism => 23,
            MaimaiVersion::PrismPlus => 24,
        }
    }

    /// The version with number `|v|`; an error for numbers with no version.
    pub fn try_from_i8(v: i8) -> (r: Result<MaimaiVersion, i8>)
        requires
            v != i8::MIN,
        ensures
            r matches Ok(x) ==> version_at(if v < 0 { -v } else { v as int }) == Some(x),
            r matches Err(e) ==> e == v && version_at(if v < 0 { -v } else { v as int })
                is None,
    {
        let a: i8 = if v < 0 { -v } else { v };
        if a == 0 { Ok(MaimaiVersion::Maimai) }
        else if a == 1 { Ok(MaimaiVersion::MaimaiPlus) }
        else if a == 2 { Ok(MaimaiVersion::Green) }
        else if a == 3 { Ok(MaimaiVersion::GreenPlus) }
        else if a == 4 { Ok(MaimaiVersion::Orange) }
        else if a == 5 { Ok(MaimaiVersion::OrangePlus) }
        else if a == 6 { Ok(MaimaiVersion::Pink) }
        else if a == 7 { Ok(MaimaiVersion::PinkPlus) }
        else if a == 8 { Ok(MaimaiVersion::Murasaki) }
        else if a == 9 { Ok(MaimaiVersion::MurasakiPlus) }
        else if a == 10 { Ok(MaimaiVersion::Milk) }
        else if a == 11 { Ok(MaimaiVersion::MilkPlus) }
        else if a == 12 { Ok(MaimaiVersion::Finale) }
        else if a == 13 { Ok(MaimaiVersion::Deluxe) }
        else if a == 14 { Ok(MaimaiVersion::DeluxePlus) }
        else if a == 15 { Ok(MaimaiVersion::Splash) }
        else if a == 16 { Ok(MaimaiVersion::SplashPlus) }
        else if a == 17 { Ok(MaimaiVersion::Universe) }
        else if a == 18 { Ok(MaimaiVersion::UniversePlus) }
        else if a == 19 { Ok(MaimaiVersion::Festival) }
        else if a == 20 { Ok(MaimaiVersion::FestivalPlus) }
        else if a == 21 { Ok(MaimaiVersion::Buddies) }
        else if a == 22 { Ok(MaimaiVersion::BuddiesPlus) }
        else if a == 23 { Ok(MaimaiVersion::Prism) }
        else if a == 24 { Ok(MaimaiVersion::PrismPlus) }
        else { Err(v) }
    }

    /// The version after this one, if any.
    pub fn next(self) -> (r: Option<MaimaiVersion>)
        ensures
            r == version_at(version_index(self) + 1),
    {
        let i = self.to_i8();
        if i + 1 < NUM_VERSIONS {
            match MaimaiVersion::try_from_i8(i + 1) {
                Ok(v) => Some(v),
                Err(_) => None,
            }
        } else {
            None
        }
    }

    /// `self` was released before `other`.
    pub fn lt(self, other: MaimaiVersion) -> (r: bool)
        ensures
            r == version_lt(self, other),
    {
        self.to_i8() < other.to_i8()
    }

    /// The newest version this library knows the rules of.
    pub fn latest() -> (r: MaimaiVersion)
        ensures
            r == MaimaiVersion::Prism,
    {
        MaimaiVersion::Prism
    }

    /// The first day of this version.
    pub fn start_date(self) -> (r: YearMonthDay)
        ensures
            r == ymd_of(start_date_spec(self)),
    {
        let (year, month, day): (i32, u32, u32) = match self {
            MaimaiVersion::Maimai => (2012, 7, 12),
            MaimaiVersion::MaimaiPlus => (2012, 12, 13),
            MaimaiVersion::Green => (2013, 7, 11),
            MaimaiVersion::GreenPlus => (2014, 2, 26),
            MaimaiVersion::Orange => (2014, 9, 18),
            MaimaiVersion::OrangePlus => (2015, 3, 19),
            MaimaiVersion::Pink => (2015, 12, 9),
            MaimaiVersion::PinkPlus => (2016, 6, 30),
            MaimaiVersion::Murasaki => (2016, 12, 14),
            MaimaiVersion::MurasakiPlus => (2017, 6, 22),
            MaimaiVersion::Milk => (2017, 12, 14),
            MaimaiVersion::MilkPlus => (2018, 6, 21),
            MaimaiVersion::Finale => (2018, 12, 13),
            MaimaiVersion::Deluxe => (2019, 7, 11),
            MaimaiVersion::DeluxePlus => (2020, 1, 23),
            MaimaiVersion::Splash => (2020, 9, 17),
            MaimaiVersion::SplashPlus => (2021, 3, 18),
            MaimaiVersion::Universe => (2021, 9, 16),
            MaimaiVersion::UniversePlus => (2022, 3, 24),
            MaimaiVersion::Festival => (2022, 9, 15),
            MaimaiVersion::FestivalPlus => (2023, 3, 23),
            MaimaiVersion::Buddies => (2023, 9, 14),
            MaimaiVersion::BuddiesPlus => (2024, 3, 21),
            MaimaiVersion::Prism => (2024, 9, 12),
            MaimaiVersion::PrismPlus => (2024, 3, 13),
        };
        YearMonthDay { year, month, day }
    }

    /// The first version, in release order, in which the date lies.
    pub fn of_date(x: YearMonthDay) -> (r: Option<MaimaiVersion>)
        ensures
            r matches Some(v) ==> date_in_version(v, x) && forall|j: int|
                0 <= j < version_index(v) ==> !date_in_version(#[trigger] version_at(j)->0, x),
            r is None ==> forall|j: int|
                0 <= j < NUM_VERSIONS ==> !date_in_version(#[trigger] version_at(j)->0, x),
            r == version_of_date(x),
    {
        let mut i: i8 = 0;
        while i < NUM_VERSIONS
            invariant
                0 <= i <= NUM_VERSIONS,
                forall|j: int| 0 <= j < i ==> !date_in_version(#[trigger] version_at(j)->0, x),
                version_of_date(x) == version_of_date_from(x, i as int),
            decreases NUM_VERSIONS - i,
        {
            let v = match MaimaiVersion::try_from_i8(i) {
                Ok(v) => v,
                Err(_) => { return None; }
            };
            let inside = !ymd_less(x, v.start_date()) && match v.next() {
                None => true,
                Some(n) => ymd_less(x, n.start_date()),
            };
            if inside {
                return Some(v);
            }
            i = i + 1;
        }
        None
    }
}

/// Each version from the first to PRiSM starts after the one before it.
/// (PRiSM PLUS is dated 2024-03-13, before PRiSM, as the tables it is taken
/// from write it, so it is left out.)
pub proof fn lemma_start_dates_increase(i: int)
    requires
        0 <= i < 23,
    ensures
        ymd_lt(ymd_of(start_date_spec(version_at(i)->0)), ymd_of(start_date_spec(version_at(i + 1)->0))),
{
}

/// Numbering versions and reading the number back gives the same version.
pub proof fn lemma_version_index_roundtrip(v: MaimaiVersion)
    ensures
        0 <= version_index(v) < NUM_VERSIONS,
        version_at(version_index(v)) == Some(v),
{
}

/// Every number below the version count names a version, and numbering it
/// gives the number back.
pub proof fn lemma_version_at_roundtrip(i: int)
    requires
        0 <= i < NUM_VERSIONS,
    ensures
        version_at(i) matches Some(v) && version_index(v) == i,
{
}

} // verus!
