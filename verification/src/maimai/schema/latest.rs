use vstd::prelude::*;

use chrono::Datelike;
use crate::maimai::version::{version_of_date, MaimaiVersion, YearMonthDay};
use vstd::std_specs::cmp::PartialEqSpecImpl;

use crate::text::{
    is_digit, lemma_dec_digits, lemma_parse_dec, dec, dec_padded, str_eq, dec_signed, find_char, parse_unsigned, parse_unsigned_max, push_decimal,
    push_decimal_padded, push_signed_decimal,
};

verus! {

/// Achievement in units of 0.0001%, e.g. `100_5000` is 100.5000%.
#[derive(Clone, Copy, PartialEq, Eq, Structural, Debug)]
pub struct AchievementValue(u32);

/// Largest achievement the game can award: 101.0000%.
pub const MAX_ACHIEVEMENT: u32 = 101_0000;

impl AchievementValue {
    pub closed spec fn spec_get(self) -> u32 {
        self.0
    }

    #[verifier::when_used_as_spec(spec_get)]
    pub fn get(self) -> (r: u32)
        ensures
            r == self.spec_get(),
    {
        self.0
    }

    /// Accepts every value up to 101.0000%.
    pub fn try_from_u32(v: u32) -> (r: Result<Self, u32>)
        ensures
            v <= MAX_ACHIEVEMENT ==> (r matches Ok(x) && x.spec_get() == v),
            v > MAX_ACHIEVEMENT ==> r == Err::<Self, u32>(v),
    {
        if v <= MAX_ACHIEVEMENT {
            Ok(AchievementValue(v))
        } else {
            Err(v)
        }
    }
}

/// A player rating as shown on the result screen.
#[derive(Clone, Copy, PartialEq, Eq, Structural, Debug)]
pub struct RatingValue(u16);

impl RatingValue {
    pub closed spec fn spec_get(self) -> u16 {
        self.0
    }

    #[verifier::when_used_as_spec(spec_get)]
    pub fn get(self) -> (r: u16)
        ensures
            r == self.spec_get(),
    {
        self.0
    }

    pub fn from_u16(v: u16) -> (r: Self)
        ensures
            r.spec_get() == v,
    {
        RatingValue(v)
    }
}

/// The position of a record in the play history (0 to 49) and, when the page
/// carries it, the play time in seconds since the Unix epoch (UTC).
#[derive(Clone, Copy, Default, PartialEq, Eq, Structural, Debug)]
pub struct Idx {
    index: u8,
    timestamp: Option<i64>,
}

/// Why a string is not a record index.
#[derive(Clone, Copy, PartialEq, Eq, Structural, Debug)]
pub enum IdxParseError {
    /// The index is not a number from 0 to 255.
    ParseIntError,
    /// The index is a number from 50 to 255.
    IndexOutOfRange(u8),
    /// The part after the comma is not a timestamp.
    TimestampParseError,
}

/// The result of reading `s` as a date and time in chrono's format `fmt`,
/// as seconds since the Unix epoch of that date and time taken as UTC.
pub uninterp spec fn naive_seconds_of(s: Seq<char>, fmt: Seq<char>) -> Option<i64>;

/// Reads a date and time as `chrono::NaiveDateTime::parse_from_str(s, fmt)`
/// does, and gives it back as seconds since the epoch of that date and time
/// taken as UTC (`and_utc().timestamp()`). The result is named, not stated:
/// chrono's format grammar is not restated here. Only the three formats this
/// library reads are admitted: on a format that holds both `%s` and a
/// seconds field but no full date, chrono can reach a subtraction that
/// panics, and none of these three does.
#[verifier::external_body]
pub(crate) fn parse_naive_seconds(s: &str, fmt: &str) -> (r: Option<i64>)
    requires
        fmt@ == "%s"@ || fmt@ == "%Y-%m-%d_%H-%M-%S"@ || fmt@ == "%Y/%m/%d %H:%M"@,
    ensures
        r == naive_seconds_of(s@, fmt@),
{
    match chrono::NaiveDateTime::parse_from_str(s, fmt) {
        Ok(t) => Some(t.and_utc().timestamp()),
        Err(_) => None,
    }
}

/// What the standard URL parser (`url::Url::parse`, then its text) makes of
/// an address; none when it is no valid address.
pub uninterp spec fn url_text(s: Seq<char>) -> Option<Seq<char>>;

/// Parses an address with `url::Url::parse` and gives back its normalised
/// text. The result is named, not stated: the URL standard is not restated
/// here.
#[verifier::external_body]
pub(crate) fn parse_url(s: &str) -> (r: Option<String>)
    ensures
        match r {
            Some(t) => url_text(s@) == Some(t@),
            None => url_text(s@) is None,
        },
{
    match url::Url::parse(s) {
        Ok(u) => Some(u.to_string()),
        Err(_) => None,
    }
}

/// The year, month and day that `chrono::NaiveDate::parse_from_str` reads
/// from `s` in the format `fmt`.
pub uninterp spec fn naive_date_of(s: Seq<char>, fmt: Seq<char>) -> Option<(i32, u32, u32)>;

/// Reads a date as `chrono::NaiveDate::parse_from_str(s, fmt)` does and gives
/// back its year, month and day. The result is named, not stated.
#[verifier::external_body]
pub(crate) fn parse_naive_date(s: &str, fmt: &str) -> (r: Option<(i32, u32, u32)>)
    ensures
        r == naive_date_of(s@, fmt@),
{
    match chrono::NaiveDate::parse_from_str(s, fmt) {
        Ok(d) => Some((d.year(), d.month(), d.day())),
        Err(_) => None,
    }
}

/// The format of record timestamps: seconds since the epoch.
pub open spec fn epoch_seconds_of(s: Seq<char>) -> Option<i64> {
    naive_seconds_of(s, "%s"@)
}

/// What `Idx::from_str` gives: "index" or "index,timestamp"; the timestamp
/// is read before the index.
pub closed spec fn parse_idx_spec(s: Seq<char>) -> Result<Idx, IdxParseError> {
    let comma = if exists|i: int| 0 <= i < s.len() && s[i] == ',' {
        Some(choose|i: int| 0 <= i < s.len() && s[i] == ',' && forall|j: int| 0 <= j < i ==> s[j] != ',')
    } else {
        None
    };
    let (index_part, ts) = match comma {
        Some(i) => (s.subrange(0, i), Some(epoch_seconds_of(s.subrange(i + 1, s.len() as int)))),
        None => (s, None),
    };
    if ts matches Some(None) {
        Err(IdxParseError::TimestampParseError)
    } else {
        match parse_unsigned(index_part, 255) {
            None => Err(IdxParseError::ParseIntError),
            Some(v) => if v <= 49 {
                Ok(Idx { index: v as u8, timestamp: match ts { Some(t) => t, None => None } })
            } else {
                Err(IdxParseError::IndexOutOfRange(v as u8))
            },
        }
    }
}

impl Idx {
    pub closed spec fn index_value(self) -> u8 {
        self.index
    }

    pub closed spec fn timestamp_value(self) -> Option<i64> {
        self.timestamp
    }

    /// The record index, if it is below 50.
    pub fn new(index: u8, timestamp: Option<i64>) -> (r: Option<Idx>)
        ensures
            index <= 49 ==> (r matches Some(x) && x.index_value() == index && x.timestamp_value() == timestamp),
            index > 49 ==> r is None,
    {
        if index <= 49 {
            Some(Idx { index, timestamp })
        } else {
            None
        }
    }

    pub fn index(self) -> (r: u8)
        ensures
            r == self.index_value(),
    {
        self.index
    }

    pub fn timestamp(self) -> (r: Option<i64>)
        ensures
            r == self.timestamp_value(),
    {
        self.timestamp
    }

    /// Reads "index" or "index,timestamp".
    pub fn from_str(s: &str) -> (r: Result<Idx, IdxParseError>)
        ensures
            r == parse_idx_spec(s@),
    {
        let n = s.unicode_len();
        let comma = find_char(s, ',');
        let ghost spec_comma = if exists|i: int| 0 <= i < s@.len() && s@[i] == ',' {
            Some(choose|i: int| 0 <= i < s@.len() && s@[i] == ',' && forall|j: int| 0 <= j < i ==> s@[j] != ',')
        } else {
            None
        };
        let (index_part, timestamp) = match comma {
            Some(i) => {
                proof {
                    assert(exists|k: int| 0 <= k < s@.len() && s@[k] == ',');
                    let k = choose|k: int| 0 <= k < s@.len() && s@[k] == ',' && forall|j: int| 0 <= j < k ==> s@[j] != ',';
                    assert(s@[i as int] == ',');
                    assert(k == i);
                }
                let ts = s.substring_char(i + 1, n);
                match parse_naive_seconds(ts, "%s") {
                    None => { return Err(IdxParseError::TimestampParseError); }
                    Some(t) => (s.substring_char(0, i), Some(t)),
                }
            },
            None => (s, None),
        };
        match parse_unsigned_max(index_part, 255) {
            None => Err(IdxParseError::ParseIntError),
            Some(v) => if v <= 49 {
                Ok(Idx { index: v as u8, timestamp })
            } else {
                Err(IdxParseError::IndexOutOfRange(v as u8))
            },
        }
    }

    /// The play time in Japan time, when the index carries one.
    pub fn timestamp_jst(self) -> (r: Option<PlayTime>)
        requires
            self.timestamp_value() matches Some(t) ==> t <= i64::MAX - JST_OFFSET_SECONDS,
        ensures
            r == match self.timestamp_value() {
                Some(t) => Some(PlayTime::from_seconds_spec(t + JST_OFFSET_SECONDS)),
                None => None,
            },
            match self.timestamp_value() {
                Some(t) => r matches Some(p) && p.seconds() == t + JST_OFFSET_SECONDS,
                None => r is None,
            },
    {
        match self.timestamp {
            Some(t) => Some(PlayTime::from_utc(t)),
            None => None,
        }
    }

    /// "index" or "index,timestamp".
    pub fn to_string(self) -> (r: String)
        ensures
            r@ == idx_text(self),
    {
        let mut r = String::new();
        push_decimal(&mut r, self.index as u64);
        if let Some(t) = self.timestamp {
            crate::text::push_char(&mut r, ',');
            push_signed_decimal(&mut r, t);
        }
        r
    }
}

/// The text of a record index: "index" or "index,timestamp".
pub open spec fn idx_text(idx: Idx) -> Seq<char> {
    dec(idx.index_value() as nat) + match idx.timestamp_value() {
        None => Seq::empty(),
        Some(t) => seq![','] + dec_signed(t as int),
    }
}

/// The index that `head` gives as a plain number, with the time stamp
/// `ts`: its number when that is 0 to 49.
pub open spec fn plain_idx_result(head: Seq<char>, ts: Option<i64>, r: Result<Idx, IdxParseError>) -> bool {
    match parse_unsigned(head, 255) {
        None => r == Err::<Idx, IdxParseError>(IdxParseError::ParseIntError),
        Some(v) => if v <= 49 {
            r matches Ok(x) && x.index_value() == v && x.timestamp_value() == ts
        } else {
            r == Err::<Idx, IdxParseError>(IdxParseError::IndexOutOfRange(v as u8))
        },
    }
}

/// How an index without a comma reads: a plain number, with no time stamp.
pub proof fn lemma_parse_idx_plain(s: Seq<char>)
    requires
        forall|i: int| 0 <= i < s.len() ==> s[i] != ',',
    ensures
        plain_idx_result(s, None, parse_idx_spec(s)),
{
}

/// How "index,timestamp" reads: the time stamp after the first comma must
/// read as seconds, then the part before it reads as a plain number.
pub proof fn lemma_parse_idx_stamped(s: Seq<char>, k: int)
    requires
        0 <= k < s.len(),
        s[k] == ',',
        forall|j: int| 0 <= j < k ==> s[j] != ',',
    ensures
        match epoch_seconds_of(s.subrange(k + 1, s.len() as int)) {
            None => parse_idx_spec(s) == Err::<Idx, IdxParseError>(IdxParseError::TimestampParseError),
            Some(t) => plain_idx_result(s.subrange(0, k), Some(t), parse_idx_spec(s)),
        },
{
    assert(exists|i: int| 0 <= i < s.len() && s[i] == ',');
    let c = choose|i: int| 0 <= i < s.len() && s[i] == ',' && forall|j: int| 0 <= j < i ==> s[j] != ',';
    assert(s[k] == ',' && forall|j: int| 0 <= j < k ==> s[j] != ',');
    if c < k {
        assert(s[c] != ',');
    }
    if c > k {
        assert(s[k] != ',');
    }
    assert(c == k);
}

/// Reading back the text of a record index without a timestamp gives the
/// same index.
pub proof fn lemma_idx_text_read_back(idx: Idx)
    requires
        idx.index_value() <= 49,
        idx.timestamp_value() is None,
    ensures
        parse_idx_spec(idx_text(idx)) == Ok::<Idx, IdxParseError>(idx),
{
    let s = idx_text(idx);
    let n = idx.index_value() as nat;
    assert(s =~= dec(n));
    lemma_dec_digits(n);
    lemma_parse_dec(n, 255);
    assert(!(exists|i: int| 0 <= i < s.len() && s[i] == ',')) by {
        assert forall|i: int| 0 <= i < s.len() implies s[i] != ',' by {
            assert(is_digit(s[i]));
        }
    }
}

/// Japan time is nine hours ahead of UTC.
pub const JST_OFFSET_SECONDS: i64 = 32400;

/// A play time in Japan time, as the seconds since 1970-01-01 00:00 of that
/// wall-clock date and time.
#[derive(Clone, Copy, PartialEq, Eq, Structural, PartialOrd, Ord, Hash, Debug)]
pub struct PlayTime(i64);

impl PlayTime {
    pub closed spec fn seconds(self) -> i64 {
        self.0
    }

    /// The play time `t` seconds after 1970-01-01 00:00 (`t` within `i64`).
    pub closed spec fn from_seconds_spec(t: int) -> PlayTime {
        PlayTime(t as i64)
    }

    /// The wall-clock time given as seconds since 1970-01-01 00:00.
    pub fn from_naive_seconds(t: i64) -> (r: PlayTime)
        ensures
            r.seconds() == t,
            r == PlayTime::from_seconds_spec(t as int),
    {
        PlayTime(t)
    }

    pub fn get(self) -> (r: i64)
        ensures
            r == self.seconds(),
    {
        self.0
    }

    /// The play time made of a number of seconds has that number of seconds.
    pub proof fn lemma_from_seconds(t: int)
        requires
            i64::MIN <= t <= i64::MAX,
        ensures
            PlayTime::from_seconds_spec(t).seconds() == t,
    {
    }

    /// A play time is its number of seconds.
    pub proof fn lemma_seconds_injective(a: PlayTime, b: PlayTime)
        requires
            a.seconds() == b.seconds(),
        ensures
            a == b,
    {
    }

    /// The Japan time of a moment given in seconds since the Unix epoch.
    pub fn from_utc(t: i64) -> (r: PlayTime)
        requires
            t <= i64::MAX - JST_OFFSET_SECONDS,
        ensures
            r.seconds() == t + JST_OFFSET_SECONDS,
            r == PlayTime::from_seconds_spec(t + JST_OFFSET_SECONDS),
    {
        PlayTime(t + JST_OFFSET_SECONDS)
    }
}

/// The text of a wall-clock time given as seconds since 1970-01-01 00:00,
/// as chrono's `NaiveDateTime` shows it; none for times chrono cannot hold.
pub uninterp spec fn naive_time_text(t: i64) -> Option<Seq<char>>;

/// Shows a wall-clock time as `chrono::NaiveDateTime`'s `Display` does,
/// e.g. "2023-09-14 01:55:00". The text is named, not stated.
#[verifier::external_body]
pub(crate) fn format_naive_seconds(t: i64) -> (r: Option<String>)
    ensures
        match r {
            Some(s) => naive_time_text(t) == Some(s@),
            None => naive_time_text(t) is None,
        },
{
    match chrono::DateTime::from_timestamp(t, 0) {
        Some(d) => Some(d.naive_utc().to_string()),
        None => None,
    }
}

/// The calendar date of a wall-clock time given as seconds since
/// 1970-01-01 00:00, as chrono reckons it; none for times chrono cannot hold.
pub uninterp spec fn date_of_seconds(t: i64) -> Option<(i32, u32, u32)>;

/// The date of a wall-clock time (`chrono::DateTime::from_timestamp`, then
/// `date_naive`). The date is named, not stated.
#[verifier::external_body]
pub(crate) fn seconds_to_date(t: i64) -> (r: Option<(i32, u32, u32)>)
    ensures
        r == date_of_seconds(t),
{
    match chrono::DateTime::from_timestamp(t, 0) {
        Some(d) => {
            let n = d.date_naive();
            Some((n.year(), n.month(), n.day()))
        },
        None => None,
    }
}

/// Versions start at 06:00 of their first day.
pub const VERSION_START_HOUR_SECONDS: i64 = 21600;

/// The version a play time falls in: the version of the date six hours
/// earlier, as every version starts at 06:00.
pub open spec fn version_of_time(t: PlayTime) -> Option<MaimaiVersion> {
    if t.seconds() < i64::MIN + VERSION_START_HOUR_SECONDS {
        None
    } else {
        match date_of_seconds((t.seconds() - VERSION_START_HOUR_SECONDS) as i64) {
            Some(d) => version_of_date(YearMonthDay { year: d.0, month: d.1, day: d.2 }),
            None => None,
        }
    }
}

impl MaimaiVersion {
    /// The version that was running at a play time.
    pub fn of_time(t: PlayTime) -> (r: Option<MaimaiVersion>)
        ensures
            r == version_of_time(t),
    {
        let s = t.get();
        if s < i64::MIN + VERSION_START_HOUR_SECONDS {
            return None;
        }
        match seconds_to_date(s - VERSION_START_HOUR_SECONDS) {
            Some((year, month, day)) => MaimaiVersion::of_date(YearMonthDay { year, month, day }),
            None => None,
        }
    }
}

/// How a play time is shown: chrono's text, or the number of seconds for a
/// time that chrono cannot hold.
pub open spec fn time_stamp_text(t: i64) -> Seq<char> {
    match naive_time_text(t) {
        Some(s) => s,
        None => dec_signed(t as int),
    }
}

impl PlayTime {
    /// The play time as shown, e.g. "2023-09-14 01:55:00".
    pub fn to_string(self) -> (r: String)
        ensures
            r@ == time_stamp_text(self.seconds()),
    {
        match format_naive_seconds(self.0) {
            Some(x) => x,
            None => {
                let mut x = String::new();
                push_signed_decimal(&mut x, self.0);
                x
            },
        }
    }
}

/// The name of the arcade a record was played at.
#[derive(Clone, PartialEq, Eq, Debug)]
pub struct PlaceName(pub String);

/// The track number within a credit, starting at 1.
#[derive(Clone, Copy, PartialEq, Eq, Structural, Debug)]
pub struct TrackIndex(u8);

impl TrackIndex {
    pub closed spec fn value(self) -> u8 {
        self.0
    }

    /// Accepts every track number from 1.
    pub fn try_from_u8(value: u8) -> (r: Result<TrackIndex, u8>)
        ensures
            value >= 1 ==> (r matches Ok(t) && t.value() == value),
            value == 0 ==> r == Err::<TrackIndex, u8>(value),
    {
        if value >= 1 {
            Ok(TrackIndex(value))
        } else {
            Err(value)
        }
    }

    pub fn get(self) -> (r: u8)
        ensures
            r == self.value(),
    {
        self.0
    }
}

#[derive(Clone, PartialEq, Eq, PartialOrd, Ord, Hash, Debug)]
pub struct SongName(pub String);

/// The cover art URL of a song.
#[derive(Clone, Debug)]
pub struct SongIcon(pub String);

pub open spec fn is_hex_lower(c: char) -> bool {
    ('0' <= c && c <= '9') || ('a' <= c && c <= 'f')
}

/// The length of the cover art address pattern on the Japanese site
/// (`alt` false) and on the international one (`alt` true).
pub open spec fn icon_pattern_len(alt: bool) -> int {
    if alt { 69 } else { 64 }
}

/// Where the 16 hexadecimal digits start in the pattern.
pub open spec fn icon_digits_at(alt: bool) -> int {
    if alt { 49 } else { 44 }
}

/// Character `k` of the pattern
/// `https://(maimaidx.jp|maimaidx-eng.com)/maimai-mobile/img/Music/([0-9a-f]{16}).png`
/// accepts `c`; an unescaped `.` accepts any character but a line break.
pub open spec fn icon_pattern_accepts(alt: bool, k: int, c: char) -> bool {
    if !alt {
        if k < 16 {
            c == "https://maimaidx"@[k]
        } else if k == 16 {
            c != '\n'
        } else if k < 44 {
            c == "jp/maimai-mobile/img/Music/"@[k - 17]
        } else if k < 60 {
            is_hex_lower(c)
        } else if k == 60 {
            c != '\n'
        } else {
            c == "png"@[k - 61]
        }
    } else {
        if k < 20 {
            c == "https://maimaidx-eng"@[k]
        } else if k == 20 {
            c != '\n'
        } else if k < 49 {
            c == "com/maimai-mobile/img/Music/"@[k - 21]
        } else if k < 65 {
            is_hex_lower(c)
        } else if k == 65 {
            c != '\n'
        } else {
            c == "png"@[k - 66]
        }
    }
}

/// The pattern (one of its two hosts) matches `s` from position `i`.
pub open spec fn icon_matches_at(s: Seq<char>, i: int, alt: bool) -> bool {
    &&& 0 <= i
    &&& i + icon_pattern_len(alt) <= s.len()
    &&& forall|k: int| 0 <= k < icon_pattern_len(alt) ==> #[trigger] icon_pattern_accepts(alt, k, s[i + k])
}

pub open spec fn icon_match_start(s: Seq<char>, i: int) -> bool {
    icon_matches_at(s, i, false) || icon_matches_at(s, i, true)
}

/// The 16 hexadecimal digits of the leftmost match of the pattern in `s`.
pub open spec fn standard_part_spec(s: Seq<char>) -> Option<Seq<char>> {
    if exists|i: int| #[trigger] icon_match_start(s, i) {
        let i = choose|i: int| #[trigger] icon_match_start(s, i) && forall|j: int| 0 <= j < i ==> !icon_match_start(s, j);
        let d = icon_digits_at(!icon_matches_at(s, i, false));
        Some(s.subrange(i + d, i + d + 16))
    } else {
        None
    }
}

/// What cover arts are compared by: the digits when the address has the
/// usual form, else the whole address.
pub open spec fn icon_key(s: Seq<char>) -> (bool, Seq<char>) {
    match standard_part_spec(s) {
        Some(p) => (true, p),
        None => (false, s),
    }
}

fn icon_pattern_check(alt: bool, k: usize, c: char) -> (r: bool)
    requires
        k < icon_pattern_len(alt),
    ensures
        r == icon_pattern_accepts(alt, k as int, c),
{
    proof {
        reveal_strlit("https://maimaidx");
        reveal_strlit("jp/maimai-mobile/img/Music/");
        reveal_strlit("png");
        reveal_strlit("https://maimaidx-eng");
        reveal_strlit("com/maimai-mobile/img/Music/");
    }
    let hex = ('0' <= c && c <= '9') || ('a' <= c && c <= 'f');
    if !alt {
        if k < 16 {
            c == "https://maimaidx".get_char(k)
        } else if k == 16 {
            c != '\n'
        } else if k < 44 {
            c == "jp/maimai-mobile/img/Music/".get_char(k - 17)
        } else if k < 60 {
            hex
        } else if k == 60 {
            c != '\n'
        } else {
            c == "png".get_char(k - 61)
        }
    } else {
        if k < 20 {
            c == "https://maimaidx-eng".get_char(k)
        } else if k == 20 {
            c != '\n'
        } else if k < 49 {
            c == "com/maimai-mobile/img/Music/".get_char(k - 21)
        } else if k < 65 {
            hex
        } else if k == 65 {
            c != '\n'
        } else {
            c == "png".get_char(k - 66)
        }
    }
}

fn icon_matches_at_exec(s: &str, n: usize, i: usize, alt: bool) -> (r: bool)
    requires
        n == s@.len(),
    ensures
        r == icon_matches_at(s@, i as int, alt),
{
    let len: usize = if alt { 69 } else { 64 };
    if n < len || i > n - len {
        return false;
    }
    let mut k: usize = 0;
    while k < len
        invariant
            len == icon_pattern_len(alt),
            i + len <= n,
            n == s@.len(),
            0 <= k <= len,
            forall|q: int| 0 <= q < k ==> #[trigger] icon_pattern_accepts(alt, q, s@[i + q]),
        decreases len - k,
    {
        let c = s.get_char(i + k);
        if !icon_pattern_check(alt, k, c) {
            assert(!icon_pattern_accepts(alt, k as int, s@[i + k]));
            return false;
        }
        k = k + 1;
    }
    true
}

impl SongIcon {
    /// The 16 hexadecimal digits that name the cover art, when the address
    /// has the usual form on either site (found anywhere in the address).
    pub fn standard_part(&self) -> (r: Option<&str>)
        ensures
            match standard_part_spec(self.0@) {
                Some(p) => r matches Some(x) && x@ == p,
                None => r is None,
            },
    {
        let s = self.0.as_str();
        let n = s.unicode_len();
        let mut i: usize = 0;
        while i < n
            invariant
                0 <= i <= n,
                n == s@.len(),
                s@ == self.0@,
                forall|j: int| 0 <= j < i ==> !#[trigger] icon_match_start(s@, j),
            decreases n - i,
        {
            let a1 = icon_matches_at_exec(s, n, i, false);
            let a2 = if a1 { false } else { icon_matches_at_exec(s, n, i, true) };
            if a1 || a2 {
                proof {
                    assert(icon_match_start(s@, i as int));
                    let c = choose|c: int| #[trigger] icon_match_start(s@, c) && forall|j: int| 0 <= j < c ==> !icon_match_start(s@, j);
                    if c < i {
                        assert(!icon_match_start(s@, c));
                    } else if c > i {
                        assert(!icon_match_start(s@, i as int));
                    }
                }
                let d: usize = if a1 { 44 } else { 49 };
                return Some(s.substring_char(i + d, i + d + 16));
            }
            i = i + 1;
        }
        proof {
            assert forall|j: int| !#[trigger] icon_match_start(s@, j) by {
                if 0 <= j < n {
                } else if j >= n {
                    assert(!icon_matches_at(s@, j, false));
                    assert(!icon_matches_at(s@, j, true));
                }
            }
        }
        None
    }

    /// Whether two cover arts are the same: by their digits when both have
    /// the usual form, else by the whole address.
    pub fn same_as(&self, other: &SongIcon) -> (r: bool)
        ensures
            r == (icon_key(self.0@) == icon_key(other.0@)),
    {
        match (self.standard_part(), other.standard_part()) {
            (Some(a), Some(b)) => str_eq(a, b),
            (None, None) => str_eq(self.0.as_str(), other.0.as_str()),
            _ => false,
        }
    }
}

impl PartialEq for SongIcon {
    fn eq(&self, other: &Self) -> (r: bool) {
        self.same_as(other)
    }
}

impl PartialEqSpecImpl for SongIcon {
    open spec fn obeys_eq_spec() -> bool {
        true
    }

    open spec fn eq_spec(&self, other: &Self) -> bool {
        icon_key(self.0@) == icon_key(other.0@)
    }
}

impl Eq for SongIcon {
}

#[derive(Clone, PartialEq, Eq, Debug)]
pub struct SongMetadata {
    pub name: SongName,
    pub cover_art: SongIcon,
}

#[derive(Clone, Copy, PartialEq, Eq, Structural, PartialOrd, Ord, Hash, Debug)]
pub enum ScoreGeneration {
    Standard,
    Deluxe,
}

impl ScoreGeneration {
    /// "Std" or "DX".
    pub fn abbrev(self) -> (r: &'static str)
        ensures
            r@ == crate::maimai::song_list::database::generation_abbrev(self),
    {
        match self {
            ScoreGeneration::Standard => "Std",
            ScoreGeneration::Deluxe => "DX",
        }
    }
}

#[derive(Clone, Copy, PartialEq, Eq, Structural, PartialOrd, Ord, Hash, Debug)]
pub enum ScoreDifficulty {
    Basic,
    Advanced,
    Expert,
    Master,
    ReMaster,
    Utage,
}

/// What `ScoreDifficulty::from_str` gives: decided by the first character,
/// in either case; utage scores cannot be named this way.
pub open spec fn difficulty_of_initial(s: Seq<char>) -> Option<ScoreDifficulty> {
    if s.len() == 0 {
        None
    } else if s[0] == 'b' || s[0] == 'B' {
        Some(ScoreDifficulty::Basic)
    } else if s[0] == 'a' || s[0] == 'A' {
        Some(ScoreDifficulty::Advanced)
    } else if s[0] == 'e' || s[0] == 'E' {
        Some(ScoreDifficulty::Expert)
    } else if s[0] == 'm' || s[0] == 'M' {
        Some(ScoreDifficulty::Master)
    } else if s[0] == 'r' || s[0] == 'R' {
        Some(ScoreDifficulty::ReMaster)
    } else {
        None
    }
}

/// The colour kanji of a difficulty.
pub open spec fn difficulty_kanji(d: ScoreDifficulty) -> char {
    match d {
        ScoreDifficulty::Basic => '緑',
        ScoreDifficulty::Advanced => '黄',
        ScoreDifficulty::Expert => '赤',
        ScoreDifficulty::Master => '紫',
        ScoreDifficulty::ReMaster => '白',
        ScoreDifficulty::Utage => '宴',
    }
}

/// Each difficulty has its own colour kanji: green, yellow, red, purple and
/// white from BASIC to Re:MASTER, and 宴 for utage.
pub proof fn lemma_difficulty_kanji_names()
    ensures
        difficulty_kanji(ScoreDifficulty::Basic) == '緑',
        difficulty_kanji(ScoreDifficulty::Advanced) == '黄',
        difficulty_kanji(ScoreDifficulty::Expert) == '赤',
        difficulty_kanji(ScoreDifficulty::Master) == '紫',
        difficulty_kanji(ScoreDifficulty::ReMaster) == '白',
        difficulty_kanji(ScoreDifficulty::Utage) == '宴',
        forall|a: ScoreDifficulty, b: ScoreDifficulty| #[trigger] difficulty_kanji(a) == #[trigger] difficulty_kanji(b) ==> a == b,
{
}

/// The abbreviation of each difficulty but utage reads back, by its first
/// letter, as that difficulty.
pub proof fn lemma_difficulty_abbrev_read_back(d: ScoreDifficulty)
    requires
        d != ScoreDifficulty::Utage,
    ensures
        difficulty_of_initial(crate::maimai::song_list::database::difficulty_abbrev(d)) == Some(d),
{
    reveal_strlit("Bas");
    reveal_strlit("Adv");
    reveal_strlit("Exp");
    reveal_strlit("Mas");
    reveal_strlit("ReMas");
}

impl ScoreDifficulty {
    pub fn abbrev(self) -> (r: &'static str)
        ensures
            r@ == crate::maimai::song_list::database::difficulty_abbrev(self),
    {
        match self {
            ScoreDifficulty::Basic => "Bas",
            ScoreDifficulty::Advanced => "Adv",
            ScoreDifficulty::Expert => "Exp",
            ScoreDifficulty::Master => "Mas",
            ScoreDifficulty::ReMaster => "ReMas",
            ScoreDifficulty::Utage => "Utg",
        }
    }

    /// The colour kanji of the difficulty.
    pub fn abbrev_kanji(self) -> (r: char)
        ensures
            r == difficulty_kanji(self),
    {
        match self {
            ScoreDifficulty::Basic => '緑',
            ScoreDifficulty::Advanced => '黄',
            ScoreDifficulty::Expert => '赤',
            ScoreDifficulty::Master => '紫',
            ScoreDifficulty::ReMaster => '白',
            ScoreDifficulty::Utage => '宴',
        }
    }

    /// The difficulty named by the first character of `s`.
    pub fn from_str(s: &str) -> (r: Option<ScoreDifficulty>)
        ensures
            r == difficulty_of_initial(s@),
    {
        if s.unicode_len() == 0 {
            return None;
        }
        let c = s.get_char(0);
        if c == 'b' || c == 'B' {
            Some(ScoreDifficulty::Basic)
        } else if c == 'a' || c == 'A' {
            Some(ScoreDifficulty::Advanced)
        } else if c == 'e' || c == 'E' {
            Some(ScoreDifficulty::Expert)
        } else if c == 'm' || c == 'M' {
            Some(ScoreDifficulty::Master)
        } else if c == 'r' || c == 'R' {
            Some(ScoreDifficulty::ReMaster)
        } else {
            None
        }
    }
}

/// Which chart of which song.
#[derive(Clone, Copy, PartialEq, Eq, Structural, PartialOrd, Ord, Hash, Debug)]
pub struct ScoreMetadata {
    pub generation: ScoreGeneration,
    pub difficulty: ScoreDifficulty,
}

#[derive(Clone, Copy, PartialEq, Eq, Structural, Debug)]
pub enum AchievementRank {
    SSSPlus,
    SSS,
    SSPlus,
    SS,
    SPlus,
    S,
    AAA,
    AA,
    A,
    BBB,
    BB,
    B,
    C,
    D,
}

#[derive(Clone, Copy, PartialEq, Eq, Structural, Debug)]
pub struct AchievementResult {
    pub value: AchievementValue,
    pub new_record: bool,
    pub rank: AchievementRank,
}

/// A value together with its maximum; the value never exceeds the maximum.
#[derive(Clone, Copy, PartialEq, Eq, Structural, Debug)]
pub struct ValueWithMax<T> {
    value: T,
    max: T,
}

impl ValueWithMax<u32> {
    pub closed spec fn value_spec(self) -> u32 {
        self.value
    }

    pub closed spec fn max_spec(self) -> u32 {
        self.max
    }

    /// The pair, if `value <= max`; otherwise both back as the error.
    pub fn new(value: u32, max: u32) -> (r: Result<ValueWithMax<u32>, (u32, u32)>)
        ensures
            value <= max ==> (r matches Ok(x) && x.value_spec() == value && x.max_spec() == max),
            value > max ==> r == Err::<ValueWithMax<u32>, (u32, u32)>((value, max)),
    {
        if value <= max {
            Ok(ValueWithMax { value, max })
        } else {
            Err((value, max))
        }
    }

    pub fn value(self) -> (r: u32)
        ensures
            r == self.value_spec(),
    {
        self.value
    }

    pub fn max(self) -> (r: u32)
        ensures
            r == self.max_spec(),
    {
        self.max
    }
}

/// The DX score star rank, 0 to 5.
#[derive(Clone, Copy, PartialEq, Eq, Structural, Debug)]
pub struct DeluxscoreRank(u8);

impl DeluxscoreRank {
    pub closed spec fn value(self) -> u8 {
        self.0
    }

    pub fn try_from_u8(value: u8) -> (r: Result<DeluxscoreRank, u8>)
        ensures
            value <= 5 ==> (r matches Ok(x) && x.value() == value),
            value > 5 ==> r == Err::<DeluxscoreRank, u8>(value),
    {
        if value <= 5 {
            Ok(DeluxscoreRank(value))
        } else {
            Err(value)
        }
    }

    pub fn get(self) -> (r: u8)
        ensures
            r == self.value(),
    {
        self.0
    }
}

#[derive(Clone, Copy, PartialEq, Eq, Structural, Debug)]
pub struct DeluxscoreResult {
    pub score: ValueWithMax<u32>,
    pub rank: DeluxscoreRank,
    pub new_record: bool,
}

#[derive(Clone, Copy, PartialEq, Eq, Structural, Debug)]
pub enum FullComboKind {
    Nothing,
    FullCombo,
    FullComboPlus,
    AllPerfect,
    AllPerfectPlus,
}

#[derive(Clone, Copy, PartialEq, Eq, Structural, Debug)]
pub struct ComboResult {
    pub full_combo_kind: FullComboKind,
    pub combo: ValueWithMax<u32>,
}

#[derive(Clone, Copy, PartialEq, Eq, Structural, Debug)]
pub enum RatingDeltaSign {
    Up,
    Keep,
    Down,
}

#[derive(Clone, Copy, PartialEq, Eq, Structural, Debug)]
pub enum RatingBorderColor {
    Normal,
    Blue,
    Green,
    Orange,
    Red,
    Purple,
    Bronze,
    Silver,
    Gold,
    /// Added in DELUXE Splash PLUS.
    Platinum,
    Rainbow,
}

#[derive(Clone, Copy, PartialEq, Eq, Structural, Debug)]
pub struct RatingResult {
    pub rating: RatingValue,
    pub delta: i16,
    pub delta_sign: RatingDeltaSign,
    pub border_color: RatingBorderColor,
}

/// Judgement counts without the critical-perfect column.
#[derive(Clone, Copy, PartialEq, Eq, Structural, Debug)]
pub struct JudgeCountWithoutCP {
    pub perfect: u32,
    pub great: u32,
    pub good: u32,
    pub miss: u32,
}

/// Judgement counts with the critical-perfect column.
#[derive(Clone, Copy, PartialEq, Eq, Structural, Debug)]
pub struct JudgeCountWithCP {
    pub critical_perfect: u32,
    pub others: JudgeCountWithoutCP,
}

/// The counts of one kind of note; `Nothing` when the chart has none.
#[derive(Clone, Copy, PartialEq, Eq, Structural, Debug)]
pub enum JudgeCount {
    Nothing,
    JudgeCountWithCP(JudgeCountWithCP),
    JudgeCountWithoutCP(JudgeCountWithoutCP),
}

#[derive(Clone, Copy, PartialEq, Eq, Structural, Debug)]
pub struct JudgeResult {
    pub fast: u32,
    pub late: u32,
    pub tap: JudgeCount,
    pub hold: JudgeCount,
    pub slide: JudgeCount,
    pub touch: JudgeCount,
    pub break_: JudgeCountWithCP,
}

#[derive(Clone, Copy, PartialEq, Eq, Structural, Debug)]
pub enum FullSyncKind {
    Nothing,
    SyncPlay,
    FullSync,
    FullSyncPlus,
    FullSyncDx,
    FullSyncDxPlus,
}

#[derive(Clone, PartialEq, Eq, PartialOrd, Ord, Debug)]
pub struct UserName(pub String);

#[derive(Clone, PartialEq, Eq, Debug)]
pub struct OtherPlayer {
    pub difficulty: ScoreDifficulty,
    pub user_name: UserName,
}

/// The other players of a multi-player session: one to three.
#[derive(Clone, PartialEq, Eq, Debug)]
pub struct OtherPlayersList(Vec<OtherPlayer>);

impl OtherPlayersList {
    pub closed spec fn players(self) -> Seq<OtherPlayer> {
        self.0@
    }

    /// Accepts one to three players; otherwise the list comes back.
    pub fn try_from_vec(value: Vec<OtherPlayer>) -> (r: Result<OtherPlayersList, Vec<OtherPlayer>>)
        ensures
            1 <= value@.len() <= 3 ==> (r matches Ok(x) && x.players() == value@),
            !(1 <= value@.len() <= 3) ==> (r matches Err(v) && v@ == value@),
    {
        if 1 <= value.len() && value.len() <= 3 {
            Ok(OtherPlayersList(value))
        } else {
            Err(value)
        }
    }

    pub fn as_slice(&self) -> (r: &[OtherPlayer])
        ensures
            r@ == self.players(),
    {
        self.0.as_slice()
    }
}

/// The rank within a multi-player session, 1 to 4.
#[derive(Clone, Copy, PartialEq, Eq, Structural, Debug)]
pub struct MatchingRank(u8);

impl MatchingRank {
    pub closed spec fn value(self) -> u8 {
        self.0
    }

    pub fn try_from_u8(value: u8) -> (r: Result<MatchingRank, u8>)
        ensures
            1 <= value <= 4 ==> (r matches Ok(x) && x.value() == value),
            !(1 <= value <= 4) ==> r == Err::<MatchingRank, u8>(value),
    {
        if 1 <= value && value <= 4 {
            Ok(MatchingRank(value))
        } else {
            Err(value)
        }
    }

    pub fn get(self) -> (r: u8)
        ensures
            r == self.value(),
    {
        self.0
    }
}

#[derive(Clone, PartialEq, Eq, Debug)]
pub struct MatchingResult {
    pub full_sync_kind: FullSyncKind,
    pub max_sync: ValueWithMax<u32>,
    pub other_players: OtherPlayersList,
    pub rank: MatchingRank,
}

#[derive(Clone, Copy, PartialEq, Eq, Structural, Debug)]
pub enum BattleKind {
    VsFriend,
    Promotion,
}

#[derive(Clone, Copy, PartialEq, Eq, Structural, Debug)]
pub enum BattleWinOrLose {
    Win,
    Lose,
}

#[derive(Clone, PartialEq, Eq, Debug)]
pub struct BattleOpponent {
    pub user_name: UserName,
    pub achievement_value: AchievementValue,
    pub rating: RatingValue,
    pub border_color: RatingBorderColor,
}

#[derive(Clone, PartialEq, Eq, Debug)]
pub struct BattleResult {
    pub kind: BattleKind,
    pub win_or_lose: BattleWinOrLose,
    pub opponent: BattleOpponent,
}

#[derive(Clone, Copy, PartialEq, Eq, Structural, Debug)]
pub enum LifeResult {
    Nothing,
    PerfectChallengeResult(ValueWithMax<u32>),
    CourseResult(ValueWithMax<u32>),
}

/// The kanji of an utage chart kind, as shown on the site.
#[derive(Clone, PartialEq, Eq, PartialOrd, Ord, Hash, Debug)]
pub struct UtageKindRaw(pub String);

#[derive(Clone, PartialEq, Eq, Debug)]
pub enum UtageKind {
    /// 光
    AllBreak,
    /// 協
    Collaborative,
    /// 狂
    Insane,
    /// 蛸
    ManyHands,
    /// 覚
    Memorize,
    /// 宴
    Miscellaneous,
    /// 蔵
    Shelved,
    /// 星
    Slides,
    Raw(UtageKindRaw),
}

/// The kanji of an utage kind: the one its page shows.
pub open spec fn utage_kind_kanji(k: UtageKind) -> Seq<char> {
    match k {
        UtageKind::AllBreak => seq!['光'],
        UtageKind::Collaborative => seq!['協'],
        UtageKind::Insane => seq!['狂'],
        UtageKind::ManyHands => seq!['蛸'],
        UtageKind::Memorize => seq!['覚'],
        UtageKind::Miscellaneous => seq!['宴'],
        UtageKind::Shelved => seq!['蔵'],
        UtageKind::Slides => seq!['星'],
        UtageKind::Raw(r) => r.0@,
    }
}

impl UtageKindRaw {
    /// The kanji of an utage kind, leaving the kind in place.
    pub fn of_kind(value: &UtageKind) -> (r: UtageKindRaw)
        ensures
            r.0@ == utage_kind_kanji(*value),
    {
        match value {
            UtageKind::Raw(v) => UtageKindRaw(v.0.clone()),
            UtageKind::AllBreak => UtageKindRaw::from_kind(UtageKind::AllBreak),
            UtageKind::Collaborative => UtageKindRaw::from_kind(UtageKind::Collaborative),
            UtageKind::Insane => UtageKindRaw::from_kind(UtageKind::Insane),
            UtageKind::ManyHands => UtageKindRaw::from_kind(UtageKind::ManyHands),
            UtageKind::Memorize => UtageKindRaw::from_kind(UtageKind::Memorize),
            UtageKind::Miscellaneous => UtageKindRaw::from_kind(UtageKind::Miscellaneous),
            UtageKind::Shelved => UtageKindRaw::from_kind(UtageKind::Shelved),
            UtageKind::Slides => UtageKindRaw::from_kind(UtageKind::Slides),
        }
    }

    /// The kanji of an utage kind.
    pub fn from_kind(value: UtageKind) -> (r: UtageKindRaw)
        ensures
            r.0@ == utage_kind_kanji(value),
    {
        let c = match value {
            UtageKind::AllBreak => '光',
            UtageKind::Collaborative => '協',
            UtageKind::Insane => '狂',
            UtageKind::ManyHands => '蛸',
            UtageKind::Memorize => '覚',
            UtageKind::Miscellaneous => '宴',
            UtageKind::Shelved => '蔵',
            UtageKind::Slides => '星',
            UtageKind::Raw(value) => {
                return value;
            },
        };
        let mut s = String::new();
        crate::text::push_char(&mut s, c);
        UtageKindRaw(s)
    }
}

#[derive(Clone, PartialEq, Eq, Debug)]
pub struct UtageMetadata {
    pub kind: UtageKind,
    pub buddy: bool,
}

#[derive(Clone, Copy, PartialEq, Eq, Structural, PartialOrd, Ord, Hash, Debug)]
pub enum Category {
    GamesVariety,
    PopsAnime,
    MaimaiOriginal,
    NiconicoVocaloid,
    OngekiChunithm,
    TouhouProject,
}

#[derive(Clone, PartialEq, Eq, Hash, Debug)]
pub struct ArtistName(pub String);

/// The icon of a tour member.
#[derive(Clone, PartialEq, Eq, Debug)]
pub struct TourMemberIcon(pub String);

#[derive(Clone, PartialEq, Eq, Debug)]
pub struct TourMember {
    pub star: u32,
    pub icon: TourMemberIcon,
    pub level: u32,
}

/// The tour members of a credit: one to five.
#[derive(Clone, PartialEq, Eq, Debug)]
pub struct TourMemberList(Vec<TourMember>);

impl TourMemberList {
    pub closed spec fn members(self) -> Seq<TourMember> {
        self.0@
    }

    /// Accepts one to five members; otherwise the list comes back.
    pub fn try_from_vec(value: Vec<TourMember>) -> (r: Result<TourMemberList, Vec<TourMember>>)
        ensures
            1 <= value@.len() <= 5 ==> (r matches Ok(x) && x.members() == value@),
            !(1 <= value@.len() <= 5) ==> (r matches Err(v) && v@ == value@),
    {
        if 1 <= value.len() && value.len() <= 5 {
            Ok(TourMemberList(value))
        } else {
            Err(value)
        }
    }

    pub fn as_slice(&self) -> (r: &[TourMember])
        ensures
            r@ == self.members(),
    {
        self.0.as_slice()
    }
}

/// When, where and as which track a record was played.
#[derive(Clone, PartialEq, Eq, Debug)]
pub struct PlayedAt {
    pub idx: Idx,
    pub time: PlayTime,
    pub place: Option<PlaceName>,
    pub track: TrackIndex,
}

/// One play as the record page shows it.
#[derive(Clone, PartialEq, Eq, Debug)]
pub struct PlayRecord {
    pub played_at: PlayedAt,
    pub song_metadata: SongMetadata,
    pub score_metadata: ScoreMetadata,
    pub utage_metadata: Option<UtageMetadata>,
    pub cleared: bool,
    pub achievement_result: AchievementResult,
    pub deluxscore_result: DeluxscoreResult,
    pub combo_result: ComboResult,
    pub battle_result: Option<BattleResult>,
    pub matching_result: Option<MatchingResult>,
    pub life_result: LifeResult,
    pub tour_members: TourMemberList,
    pub rating_result: RatingResult,
    pub judge_result: JudgeResult,
}

impl AchievementValue {
    /// The achievement as shown, e.g. "100.5000%".
    pub fn to_string(self) -> (r: String)
        ensures
            r@ == dec((self.spec_get() / 10000) as nat) + seq!['.'] + dec_padded(
                (self.spec_get() % 10000) as nat,
                4,
            ) + seq!['%'],
    {
        let mut r = String::new();
        push_decimal(&mut r, (self.0 / 10000) as u64);
        crate::text::push_char(&mut r, '.');
        push_decimal_padded(&mut r, (self.0 % 10000) as u64, 4);
        crate::text::push_char(&mut r, '%');
        r
    }
}

impl RatingValue {
    /// The rating as shown, e.g. "15012".
    pub fn to_string(self) -> (r: String)
        ensures
            r@ == dec(self.spec_get() as nat),
    {
        let mut r = String::new();
        push_decimal(&mut r, self.0 as u64);
        r
    }
}

} // verus!
