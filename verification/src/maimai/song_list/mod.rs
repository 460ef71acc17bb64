use vstd::prelude::*;

pub mod database;
pub mod in_lv;
pub mod song_score;

use core::cmp::Ordering;

use crate::maimai::rating::ScoreLevel;
use crate::maimai::schema::latest::{SongName, UtageKindRaw};
use crate::maimai::version::{
    start_date_spec, version_lt, version_of_date, ymd_of, MaimaiVersion, YearMonthDay,
};
use crate::text::str_eq;
use vstd::std_specs::cmp::{PartialEqSpecImpl, PartialOrdSpecImpl};

verus! {

/// A short name by which players call a song.
#[derive(Clone, PartialEq, Eq, Hash, Debug)]
pub struct SongAbbreviation(pub String);

/// The comment shown with an utage chart.
#[derive(Clone, PartialEq, Eq, Debug)]
pub struct UtageComment(pub String);

/// The reading of a song title in katakana, upper-case Latin letters and
/// digits, by which the official site sorts songs.
#[derive(Clone, Debug)]
pub struct SongKana(pub String);

/// Where a character sorts in song readings: katakana first, then Latin
/// capitals, then digits, then everything else.
pub open spec fn maimai_char_class(c: char) -> u8 {
    if 'ア' <= c && c <= 'ン' {
        0
    } else if 'A' <= c && c <= 'Z' {
        1
    } else if '0' <= c && c <= '9' {
        2
    } else {
        3
    }
}

/// The sort key of a character in song readings.
pub fn maimai_char_order(c: char) -> (r: (u8, char))
    ensures
        r == (maimai_char_class(c), c),
{
    if 'ア' <= c && c <= 'ン' {
        (0, c)
    } else if 'A' <= c && c <= 'Z' {
        (1, c)
    } else if '0' <= c && c <= '9' {
        (2, c)
    } else {
        (3, c)
    }
}

/// Lexicographic comparison of `x` and `y` by code point, looking at the
/// characters from position `i` on: -1 when `x` comes first, 1 when `y`
/// comes first, 0 when they agree.
pub open spec fn lex_sign_from(x: Seq<char>, y: Seq<char>, i: int) -> i8
    decreases x.len() - i,
{
    if i >= x.len() {
        if i >= y.len() {
            0
        } else {
            -1i8
        }
    } else if i >= y.len() {
        1
    } else if x[i] < y[i] {
        -1i8
    } else if y[i] < x[i] {
        1
    } else {
        lex_sign_from(x, y, i + 1)
    }
}

/// The ordering that a comparison sign stands for.
pub open spec fn ordering_of_sign(s: i8) -> Ordering {
    if s < 0 {
        Ordering::Less
    } else if s == 0 {
        Ordering::Equal
    } else {
        Ordering::Greater
    }
}

/// The order of song readings: a non-empty reading before an empty one;
/// then by the sort key of the first character; then by the rest, character
/// by character. Two empty readings are equal.
pub open spec fn kana_order(x: Seq<char>, y: Seq<char>) -> Ordering {
    if x.len() == 0 && y.len() == 0 {
        Ordering::Equal
    } else if x.len() == 0 {
        Ordering::Greater
    } else if y.len() == 0 {
        Ordering::Less
    } else if maimai_char_class(x[0]) < maimai_char_class(y[0]) {
        Ordering::Less
    } else if maimai_char_class(y[0]) < maimai_char_class(x[0]) {
        Ordering::Greater
    } else if x[0] < y[0] {
        Ordering::Less
    } else if y[0] < x[0] {
        Ordering::Greater
    } else {
        ordering_of_sign(lex_sign_from(x, y, 1))
    }
}

/// Compares `x` and `y` by code point from position `start` on.
fn lex_sign_tail(x: &str, y: &str, start: usize) -> (r: i8)
    requires
        start <= x@.len(),
        start <= y@.len(),
    ensures
        r == lex_sign_from(x@, y@, start as int),
{
    let n = x.unicode_len();
    let m = y.unicode_len();
    let mut i = start;
    while i < n && i < m
        invariant
            start <= i <= n,
            i <= m,
            n == x@.len(),
            m == y@.len(),
            lex_sign_from(x@, y@, start as int) == lex_sign_from(x@, y@, i as int),
        decreases n - i,
    {
        let a = x.get_char(i);
        let b = y.get_char(i);
        if a < b {
            return -1;
        }
        if b < a {
            return 1;
        }
        i = i + 1;
    }
    if i >= n {
        if i >= m {
            0
        } else {
            -1
        }
    } else {
        1
    }
}

impl SongKana {
    /// The order in which the official site lists songs by reading.
    pub fn cmp(&self, other: &SongKana) -> (r: Ordering)
        ensures
            r == kana_order(self.0@, other.0@),
    {
        let x = self.0.as_str();
        let y = other.0.as_str();
        let ex = x.unicode_len() == 0;
        let ey = y.unicode_len() == 0;
        if ex && ey {
            return Ordering::Equal;
        }
        if ex {
            return Ordering::Greater;
        }
        if ey {
            return Ordering::Less;
        }
        let (ca, a) = maimai_char_order(x.get_char(0));
        let (cb, b) = maimai_char_order(y.get_char(0));
        if ca < cb {
            Ordering::Less
        } else if cb < ca {
            Ordering::Greater
        } else if a < b {
            Ordering::Less
        } else if b < a {
            Ordering::Greater
        } else {
            let t = lex_sign_tail(x, y, 1);
            if t < 0 {
                Ordering::Less
            } else if t == 0 {
                Ordering::Equal
            } else {
                Ordering::Greater
            }
        }
    }
}

impl PartialEq for SongKana {
    fn eq(&self, other: &SongKana) -> (r: bool) {
        match self.cmp(other) {
            Ordering::Equal => true,
            _ => false,
        }
    }
}

impl PartialEqSpecImpl for SongKana {
    open spec fn obeys_eq_spec() -> bool {
        true
    }

    open spec fn eq_spec(&self, other: &SongKana) -> bool {
        kana_order(self.0@, other.0@) == Ordering::Equal
    }
}

impl Eq for SongKana {
}

impl PartialOrd for SongKana {
    fn partial_cmp(&self, other: &SongKana) -> (r: Option<Ordering>) {
        Some(self.cmp(other))
    }
}

impl PartialOrdSpecImpl for SongKana {
    open spec fn obeys_partial_cmp_spec() -> bool {
        true
    }

    open spec fn partial_cmp_spec(&self, other: &SongKana) -> Option<Ordering> {
        Some(kana_order(self.0@, other.0@))
    }
}

/// An utage chart of a song.
#[derive(Clone, PartialEq, Eq, Debug)]
pub struct UtageScore {
    pub level: ScoreLevel,
    pub comment: UtageComment,
    pub kanji: UtageKindRaw,
    pub buddy: bool,
    pub name_overwrite: Option<SongName>,
}

/// What tells the utage charts of one song apart: the kind and the level.
#[derive(Clone, PartialEq, Eq, PartialOrd, Ord, Hash, Debug)]
pub struct UtageIdentifier(pub UtageKindRaw, pub ScoreLevel);

impl UtageIdentifier {
    /// An independent copy.
    pub fn to_owned(&self) -> (r: UtageIdentifier)
        ensures
            r.0.0@ == self.0.0@,
            r.1 == self.1,
    {
        UtageIdentifier(UtageKindRaw(self.0.0.clone()), self.1)
    }
}

impl UtageScore {
    pub fn new(
        level: ScoreLevel,
        comment: UtageComment,
        kanji: UtageKindRaw,
        buddy: bool,
        name_overwrite: Option<SongName>,
    ) -> (r: UtageScore)
        ensures
            r == (UtageScore { level, comment, kanji, buddy, name_overwrite }),
    {
        UtageScore { level, comment, kanji, buddy, name_overwrite }
    }

    pub fn level(&self) -> (r: ScoreLevel)
        ensures
            r == self.level,
    {
        self.level
    }

    pub fn comment(&self) -> (r: &UtageComment)
        ensures
            r == &self.comment,
    {
        &self.comment
    }

    pub fn kanji(&self) -> (r: &UtageKindRaw)
        ensures
            r == &self.kanji,
    {
        &self.kanji
    }

    pub fn buddy(&self) -> (r: bool)
        ensures
            r == self.buddy,
    {
        self.buddy
    }

    pub fn name_overwrite(&self) -> (r: &Option<SongName>)
        ensures
            r == &self.name_overwrite,
    {
        &self.name_overwrite
    }

    /// The kind and level of this chart, which tell it apart from the other
    /// utage charts of the same song.
    pub fn identifier(&self) -> (r: UtageIdentifier)
        ensures
            r.0.0@ == self.kanji.0@,
            r.1 == self.level,
    {
        UtageIdentifier(UtageKindRaw(self.kanji.0.clone()), self.level)
    }

    /// The same chart shown under another title (or under the song's own).
    pub fn with_name_overwrite(self, name_overwrite: Option<SongName>) -> (r: UtageScore)
        ensures
            r == (UtageScore { name_overwrite, ..self }),
    {
        UtageScore { name_overwrite, ..self }
    }

    /// The two charts agree in everything but the title they are shown under.
    pub fn eq_without_name_overwrite(&self, other: &UtageScore) -> (r: bool)
        ensures
            r == (self.level == other.level && self.comment.0@ == other.comment.0@
                && self.kanji.0@ == other.kanji.0@ && self.buddy == other.buddy),
    {
        self.level == other.level && str_eq(self.comment.0.as_str(), other.comment.0.as_str())
            && str_eq(self.kanji.0.as_str(), other.kanji.0.as_str()) && self.buddy == other.buddy
    }
}

/// Whether a song is in the game: from the start, removed on a date, or
/// removed on a date and brought back on a later one.
#[derive(Clone, Copy, Debug)]
pub enum RemoveState {
    Present,
    Removed(YearMonthDay),
    Revived(YearMonthDay, YearMonthDay),
}

impl Default for RemoveState {
    fn default() -> (r: RemoveState)
        ensures
            r == RemoveState::Present,
    {
        RemoveState::Present
    }
}

/// A removal on `x` takes effect in `version`: from the version in which
/// the date lies when it is that version's first day, else from the next.
pub open spec fn removal_in_effect(x: YearMonthDay, version: MaimaiVersion) -> bool {
    let rv = version_of_date(x)->0;
    if x == ymd_of(start_date_spec(rv)) {
        !version_lt(version, rv)
    } else {
        version_lt(rv, version)
    }
}

/// Every date that the state names lies in some version.
pub open spec fn remove_state_dated(s: RemoveState) -> bool {
    match s {
        RemoveState::Present => true,
        RemoveState::Removed(x) => version_of_date(x) is Some,
        RemoveState::Revived(x, y) => version_of_date(x) is Some && version_of_date(y) is Some,
    }
}

/// The song can be played in `version`.
pub open spec fn exists_in_version(s: RemoveState, version: MaimaiVersion) -> bool {
    match s {
        RemoveState::Present => true,
        RemoveState::Removed(x) => !removal_in_effect(x, version),
        RemoveState::Revived(x, y) => !(removal_in_effect(x, version) && version_lt(
            version,
            version_of_date(y)->0,
        )),
    }
}

/// The removal on `x` has taken effect in `version`.
fn removal_in_effect_at(x: YearMonthDay, version: MaimaiVersion) -> (r: bool)
    requires
        version_of_date(x) is Some,
    ensures
        r == removal_in_effect(x, version),
{
    let remove_version = match MaimaiVersion::of_date(x) {
        Some(v) => v,
        None => {
            return false;
        },
    };
    let removed_at_the_beginning = x == remove_version.start_date();
    if removed_at_the_beginning {
        !version.lt(remove_version)
    } else {
        remove_version.lt(version)
    }
}

impl RemoveState {
    /// The song can be played in `version`.
    pub fn exist_for_version(self, version: MaimaiVersion) -> (r: bool)
        requires
            remove_state_dated(self),
        ensures
            r == exists_in_version(self, version),
    {
        match self {
            RemoveState::Present => true,
            RemoveState::Removed(x) => !removal_in_effect_at(x, version),
            RemoveState::Revived(x, y) => {
                let after_removed = removal_in_effect_at(x, version);
                let recover_version = match MaimaiVersion::of_date(y) {
                    Some(v) => v,
                    None => {
                        return true;
                    },
                };
                !(after_removed && version.lt(recover_version))
            },
        }
    }
}

} // verus!
