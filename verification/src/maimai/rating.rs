use vstd::prelude::*;

use super::schema::latest::{AchievementValue, RatingValue};
use super::version::{version_index, version_lt, MaimaiVersion};
use crate::bits::{
    bit_at, bit_list, lemma_below_1024, lemma_bit_and, lemma_bit_list, lemma_bit_shl, lemma_bit_shr,
    lemma_bits_ext, lemma_clear_bit, lemma_low_mask, lemma_one_bit, lemma_pow_pos,
    lemma_shr_le, lemma_single_bit_and, lemma_zero_bits,
};
use crate::text::{dec, parse_unsigned, parse_unsigned_max, push_char, push_decimal};

verus! {

/// Rank coefficient in tenths, e.g. `224` stands for 22.4.
#[derive(Clone, Copy, PartialEq, Eq, Structural, Debug)]
pub struct RankCoefficient(pub u64);

/// The coefficient (in tenths) that applies from the given achievement
/// (in units of 0.0001%) upwards.
pub open spec fn rank_coef_spec(a: u32) -> u64 {
    if a >= 100_5000 { 224 }
    else if a >= 100_4999 { 222 }
    else if a >= 100_0000 { 216 }
    else if a >= 99_9999 { 214 }
    else if a >= 99_5000 { 211 }
    else if a >= 99_0000 { 208 }
    else if a >= 98_0000 { 203 }
    else if a >= 97_0000 { 200 }
    else if a >= 96_9999 { 176 }
    else if a >= 94_0000 { 168 }
    else if a >= 90_0000 { 152 }
    else if a >= 80_0000 { 136 }
    else if a >= 75_0000 { 120 }
    else if a >= 70_0000 { 112 }
    else if a >= 60_0000 { 96 }
    else if a >= 50_0000 { 80 }
    else if a >= 40_0000 { 64 }
    else if a >= 30_0000 { 48 }
    else if a >= 20_0000 { 32 }
    else if a >= 10_0000 { 16 }
    else { 0 }
}

/// The rank coefficient of an achievement.
pub fn rank_coef(achievement_value: AchievementValue) -> (r: RankCoefficient)
    ensures
        r.0 == rank_coef_spec(achievement_value.get()),
{
    let a = achievement_value.get();
    let ret: u64 = if a >= 100_5000 { 224 }
    else if a >= 100_4999 { 222 }
    else if a >= 100_0000 { 216 }
    else if a >= 99_9999 { 214 }
    else if a >= 99_5000 { 211 }
    else if a >= 99_0000 { 208 }
    else if a >= 98_0000 { 203 }
    else if a >= 97_0000 { 200 }
    else if a >= 96_9999 { 176 }
    else if a >= 94_0000 { 168 }
    else if a >= 90_0000 { 152 }
    else if a >= 80_0000 { 136 }
    else if a >= 75_0000 { 120 }
    else if a >= 70_0000 { 112 }
    else if a >= 60_0000 { 96 }
    else if a >= 50_0000 { 80 }
    else if a >= 40_0000 { 64 }
    else if a >= 30_0000 { 48 }
    else if a >= 20_0000 { 32 }
    else if a >= 10_0000 { 16 }
    else { 0 };
    RankCoefficient(ret)
}

/// The rank coefficient of each achievement bracket: 22.4 from 100.5000%
/// (SSS+), 21.6 from 100.0000% (SSS), 21.1 from 99.5000% (SS+), 20.8 from
/// 99.0000% (SS), 20.3 from 98.0000% (S+), 20.0 from 97.0000% (S), 16.8
/// from 94.0000% (AAA), 15.2 from 90.0000% (AA), 13.6 from 80.0000% (A),
/// and so on down to 0 below 10.0000%; the last value below a bracket
/// boundary of S and above has its own coefficient.
pub proof fn lemma_rank_coef_brackets(a: u32)
    ensures
        a >= 1005000 ==> rank_coef_spec(a) == 224,
        a == 1004999 ==> rank_coef_spec(a) == 222,
        1000000 <= a < 1004999 ==> rank_coef_spec(a) == 216,
        a == 999999 ==> rank_coef_spec(a) == 214,
        995000 <= a < 999999 ==> rank_coef_spec(a) == 211,
        990000 <= a < 995000 ==> rank_coef_spec(a) == 208,
        980000 <= a < 990000 ==> rank_coef_spec(a) == 203,
        970000 <= a < 980000 ==> rank_coef_spec(a) == 200,
        a == 969999 ==> rank_coef_spec(a) == 176,
        940000 <= a < 969999 ==> rank_coef_spec(a) == 168,
        900000 <= a < 940000 ==> rank_coef_spec(a) == 152,
        800000 <= a < 900000 ==> rank_coef_spec(a) == 136,
        750000 <= a < 800000 ==> rank_coef_spec(a) == 120,
        700000 <= a < 750000 ==> rank_coef_spec(a) == 112,
        600000 <= a < 700000 ==> rank_coef_spec(a) == 96,
        500000 <= a < 600000 ==> rank_coef_spec(a) == 80,
        400000 <= a < 500000 ==> rank_coef_spec(a) == 64,
        300000 <= a < 400000 ==> rank_coef_spec(a) == 48,
        200000 <= a < 300000 ==> rank_coef_spec(a) == 32,
        100000 <= a < 200000 ==> rank_coef_spec(a) == 16,
        a < 100000 ==> rank_coef_spec(a) == 0,
{
}

/// Reaching a higher rank always raises the coefficient: the coefficient
/// at each rank threshold (S, S+, SS, SS+, SSS, SSS+) is strictly above the
/// coefficient just below it.
pub proof fn lemma_rank_coef_steps_up()
    ensures
        rank_coef_spec(970000) > rank_coef_spec(969999),
        rank_coef_spec(980000) > rank_coef_spec(979999),
        rank_coef_spec(990000) > rank_coef_spec(989999),
        rank_coef_spec(995000) > rank_coef_spec(994999),
        rank_coef_spec(1000000) > rank_coef_spec(999999),
        rank_coef_spec(1005000) > rank_coef_spec(1004999),
{
}

/// A better achievement never gets a smaller rank coefficient.
pub proof fn lemma_rank_coef_monotone(a: u32, b: u32)
    requires
        a <= b,
    ensures
        rank_coef_spec(a) <= rank_coef_spec(b),
{
}

/// Score constant in tenths (1.0 to 15.0), e.g. `132` stands for 13.2.
#[derive(Clone, Copy, PartialEq, Eq, Structural, PartialOrd, Ord, Debug)]
pub struct ScoreConstant(u8);

impl ScoreConstant {
    #[verifier::type_invariant]
    spec fn in_range(self) -> bool {
        10 <= self.0 <= 150
    }

    pub closed spec fn value(self) -> u8 {
        self.0
    }

    /// The raw value in tenths.
    pub fn get(self) -> (r: u8)
        ensures
            r == self.value(),
            10 <= r <= 150,
    {
        proof {
            use_type_invariant(&self);
        }
        self.0
    }

    /// Accepts exactly the values 1.0 to 15.0.
    pub fn try_from_u8(v: u8) -> (r: Result<ScoreConstant, u8>)
        ensures
            (10 <= v <= 150) ==> (r matches Ok(c) && c.value() == v),
            !(10 <= v <= 150) ==> r == Err::<ScoreConstant, u8>(v),
    {
        if 10 <= v && v <= 150 {
            Ok(ScoreConstant(v))
        } else {
            Err(v)
        }
    }

    /// Every score constant in increasing order: 1.0, 1.1, ..., 15.0.
    pub fn candidates() -> (r: Vec<ScoreConstant>)
        ensures
            r@.len() == 141,
            forall|i: int| 0 <= i < 141 ==> #[trigger] r@[i].value() == 10 + i,
    {
        let mut r: Vec<ScoreConstant> = Vec::new();
        let mut v: u8 = 10;
        while v <= 150
            invariant
                10 <= v <= 151,
                r@.len() == v - 10,
                forall|i: int| 0 <= i < r@.len() ==> #[trigger] r@[i].value() == 10 + i,
            decreases 151 - v,
        {
            r.push(ScoreConstant(v));
            v = v + 1;
        }
        r
    }
}

/// The exact product `constant * min(achievement, 100.5000%) * coefficient`.
pub open spec fn rating_precise_spec(c: u8, a: u32, k: u64) -> int {
    c * (if a <= 100_5000 { a as int } else { 100_5000int }) * k
}

/// The rating of a chart grows with its constant and with the achievement,
/// and stops growing at 100.5000%: any two achievements from there give the
/// same rating.
pub proof fn lemma_rating_monotone(
    s: ScoreConstant,
    t: ScoreConstant,
    a: AchievementValue,
    b: AchievementValue,
    k: RankCoefficient,
)
    requires
        s.value() <= t.value(),
        a.get() <= b.get(),
    ensures
        rating_precise_spec(s.value(), a.get(), k.0) <= rating_precise_spec(t.value(), b.get(), k.0),
        s == t && a.get() >= 100_5000 && b.get() >= 100_5000 ==> rating_precise_spec(s.value(), a.get(), k.0)
            == rating_precise_spec(t.value(), b.get(), k.0),
{
    let x: int = if a.get() <= 100_5000 { a.get() as int } else { 100_5000int };
    let y: int = if b.get() <= 100_5000 { b.get() as int } else { 100_5000int };
    let (c, d, kk): (int, int, int) = (s.value() as int, t.value() as int, k.0 as int);
    assert(c * x * kk <= d * y * kk) by (nonlinear_arith)
        requires
            0 <= c <= d,
            0 <= x <= y,
            0 <= kk,
    ;
}

/// The single-song rating before rounding.
pub fn single_song_rating_precise(
    score_const: ScoreConstant,
    achievement_value: AchievementValue,
    rank_coef: RankCoefficient,
) -> (r: u64)
    requires
        rating_precise_spec(score_const.value(), achievement_value.get(), rank_coef.0)
            <= u64::MAX,
    ensures
        r == rating_precise_spec(score_const.value(), achievement_value.get(), rank_coef.0),
{
    let a = achievement_value.get();
    let clamped: u32 = if a <= 100_5000 { a } else { 100_5000 };
    let c = score_const.get();
    assert(c as u64 * clamped as u64 <= 150 * 100_5000) by (nonlinear_arith)
        requires
            c <= 150,
            clamped <= 100_5000,
    ;
    let cc: u64 = c as u64 * clamped as u64;
    proof {
        assert(rating_precise_spec(c, a, rank_coef.0) == cc * rank_coef.0);
    }
    cc * rank_coef.0
}

/// The single-song rating: the precise product divided by 10^8, truncated to 16 bits.
pub fn single_song_rating(
    score_const: ScoreConstant,
    achievement_value: AchievementValue,
    rank_coef: RankCoefficient,
) -> (r: RatingValue)
    requires
        rating_precise_spec(score_const.value(), achievement_value.get(), rank_coef.0)
            <= u64::MAX,
    ensures
        r.get() == (rating_precise_spec(score_const.value(), achievement_value.get(), rank_coef.0)
            / 100_000_000) as u16,
{
    let prod = single_song_rating_precise(score_const, achievement_value, rank_coef);
    let q = prod / 10 / 100_0000 / 10;
    assert(q == prod / 100_000_000) by (nonlinear_arith)
        requires
            q == prod / 10 / 100_0000 / 10,
    ;
    RatingValue::from_u16(q as u16)
}

/// A displayed level such as 13 or 13+.
#[derive(Clone, Copy, PartialEq, Eq, Structural, PartialOrd, Ord, Hash, Debug)]
pub struct ScoreLevel {
    pub level: u8,
    pub plus: bool,
}

/// The levels that exist: 1 to 15, with a "+" variant only for 7 to 14.
pub open spec fn valid_level(level: u8, plus: bool) -> bool {
    1 <= level <= 15 && !(plus && (level <= 6 || level == 15))
}

/// The order of levels: by number, then the "+" variant after the plain one.
pub open spec fn level_le(a: ScoreLevel, b: ScoreLevel) -> bool {
    a.level < b.level || (a.level == b.level && (!a.plus || b.plus))
}

pub open spec fn level_lt(a: ScoreLevel, b: ScoreLevel) -> bool {
    level_le(a, b) && a != b
}

/// The level following `l` in the list of levels, none after 15.
pub open spec fn next_level(l: ScoreLevel) -> Option<ScoreLevel> {
    if l.level == 15 {
        None
    } else if 7 <= l.level <= 14 && !l.plus {
        Some(ScoreLevel { level: l.level, plus: true })
    } else {
        Some(ScoreLevel { level: (l.level + 1) as u8, plus: false })
    }
}

pub open spec fn level_measure(l: ScoreLevel) -> int {
    2 * (16 - l.level) + (if l.plus { 0int } else { 1 })
}

/// The levels from `x` onwards (following `next_level`) that are at most `y`.
pub open spec fn levels_upto(x: ScoreLevel, y: ScoreLevel) -> Seq<ScoreLevel>
    decreases level_measure(x),
    when x.level <= 15
{
    let head = if level_le(x, y) { seq![x] } else { Seq::empty() };
    match next_level(x) {
        None => head,
        Some(n) => head + levels_upto(n, y),
    }
}

/// The first score constant (in tenths) of a level that is shown with "+",
/// given whether the version is BUDDiES PLUS or later.
pub open spec fn plus_boundary(buddies_plus_or_later: bool) -> int {
    if buddies_plus_or_later { 6 } else { 7 }
}

/// The half-open range of score constants (in tenths) that a level covers.
pub open spec fn constant_range(level: u8, plus: bool, buddies_plus_or_later: bool) -> (int, int) {
    if 1 <= level <= 6 {
        (level * 10, (level + 1) * 10)
    } else if 7 <= level <= 14 {
        let b = level * 10 + plus_boundary(buddies_plus_or_later);
        if plus { (b, (level + 1) * 10) } else { (level * 10, b) }
    } else {
        (150, 151)
    }
}

/// BUDDiES PLUS moved the "+" boundary from .7 to .6.
pub open spec fn is_buddies_plus_or_later(v: MaimaiVersion) -> bool {
    version_index(v) >= 22
}

/// The level a score constant is shown as in a version.
pub open spec fn to_lv_spec(c: int, buddies_plus_or_later: bool) -> ScoreLevel {
    let level = (c / 10) as u8;
    ScoreLevel {
        level,
        plus: 7 <= level <= 14 && c % 10 >= plus_boundary(buddies_plus_or_later),
    }
}

/// A level outside 1..=15, or a "+" that the level does not have.
#[derive(Clone, Copy, PartialEq, Eq, Structural, Debug)]
pub struct LevelOutOfRange {
    pub level: u8,
    pub plus: bool,
}

/// Why a string is not a level.
#[derive(Clone, Copy, PartialEq, Eq, Structural, Debug)]
pub enum ScoreLevelParseError {
    /// The part before an optional "+" is not a number from 0 to 255.
    NotANumber,
    OutOfRange(LevelOutOfRange),
}

/// What `ScoreLevel::from_str` gives for a string.
pub open spec fn parse_level_spec(s: Seq<char>) -> Result<ScoreLevel, ScoreLevelParseError> {
    let plus = s.len() > 0 && s.last() == '+';
    let body = if plus { s.drop_last() } else { s };
    match parse_unsigned(body, 255) {
        None => Err(ScoreLevelParseError::NotANumber),
        Some(v) => if valid_level(v as u8, plus) {
            Ok(ScoreLevel { level: v as u8, plus })
        } else {
            Err(ScoreLevelParseError::OutOfRange(LevelOutOfRange { level: v as u8, plus }))
        },
    }
}

impl ScoreLevel {
    /// The level, if it exists.
    pub fn new(level: u8, plus: bool) -> (r: Result<ScoreLevel, LevelOutOfRange>)
        ensures
            valid_level(level, plus) ==> r == Ok::<ScoreLevel, LevelOutOfRange>(
                ScoreLevel { level, plus },
            ),
            !valid_level(level, plus) ==> r == Err::<ScoreLevel, LevelOutOfRange>(
                LevelOutOfRange { level, plus },
            ),
    {
        if level == 0 || level >= 16 || (plus && ((1 <= level && level <= 6) || level == 15)) {
            Err(LevelOutOfRange { level, plus })
        } else {
            Ok(ScoreLevel { level, plus })
        }
    }

    /// Score constants of this level with the current ("+" from .6) boundary.
    pub fn score_constant_candidates(self) -> (r: Vec<ScoreConstant>)
        requires
            1 <= self.level <= 15,
        ensures
            r@.len() == constant_range(self.level, self.plus, true).1 - constant_range(
                self.level,
                self.plus,
                true,
            ).0,
            forall|i: int|
                0 <= i < r@.len() ==> #[trigger] r@[i].value() == constant_range(
                    self.level,
                    self.plus,
                    true,
                ).0 + i,
    {
        self.score_constant_candidates_aware(true)
    }

    /// Score constants of this level, in increasing order.
    pub fn score_constant_candidates_aware(self, buddies_plus_or_later: bool) -> (r: Vec<
        ScoreConstant,
    >)
        requires
            1 <= self.level <= 15,
        ensures
            r@.len() == constant_range(self.level, self.plus, buddies_plus_or_later).1
                - constant_range(self.level, self.plus, buddies_plus_or_later).0,
            forall|i: int|
                0 <= i < r@.len() ==> #[trigger] r@[i].value() == constant_range(
                    self.level,
                    self.plus,
                    buddies_plus_or_later,
                ).0 + i,
    {
        let a = self.level;
        let (lo, hi): (u8, u8) = if a <= 6 {
            (a * 10, (a + 1) * 10)
        } else if a <= 14 {
            let boundary: u8 = a * 10 + if buddies_plus_or_later { 6 } else { 7 };
            if self.plus {
                (boundary, (a + 1) * 10)
            } else {
                (a * 10, boundary)
            }
        } else {
            (150, 151)
        };
        let mut r: Vec<ScoreConstant> = Vec::new();
        let mut v = lo;
        while v < hi
            invariant
                10 <= lo <= v <= hi <= 151,
                r@.len() == v - lo,
                forall|i: int| 0 <= i < r@.len() ==> #[trigger] r@[i].value() == lo + i,
            decreases hi - v,
        {
            r.push(ScoreConstant(v));
            v = v + 1;
        }
        r
    }

    /// `self <= other` in level order.
    pub fn le(self, other: ScoreLevel) -> (r: bool)
        ensures
            r == level_le(self, other),
    {
        self.level < other.level || (self.level == other.level && (!self.plus || other.plus))
    }

    /// The levels from `x` to `y` inclusive, in increasing order.
    pub fn range_inclusive(x: ScoreLevel, y: ScoreLevel) -> (r: Vec<ScoreLevel>)
        requires
            x.level <= 15,
        ensures
            r@ == levels_upto(x, y),
    {
        let mut r: Vec<ScoreLevel> = Vec::new();
        let mut cur = x;
        loop
            invariant_except_break
                cur.level <= 15,
                r@ + levels_upto(cur, y) == levels_upto(x, y),
            ensures
                r@ == levels_upto(x, y),
            decreases level_measure(cur),
        {
            let ghost before = r@;
            if cur.le(y) {
                r.push(cur);
            }
            if cur.level == 15 {
                assert(r@ =~= before + levels_upto(cur, y));
                break;
            }
            let next = if 7 <= cur.level && cur.level <= 14 && !cur.plus {
                ScoreLevel { level: cur.level, plus: true }
            } else {
                ScoreLevel { level: cur.level + 1, plus: false }
            };
            assert(before + levels_upto(cur, y) =~= r@ + levels_upto(next, y));
            cur = next;
        }
        r
    }

    /// Every level, from 1 to 15.
    pub fn all() -> (r: Vec<ScoreLevel>)
        ensures
            r@ == levels_upto(ScoreLevel { level: 1, plus: false }, ScoreLevel { level: 15, plus: false }),
    {
        ScoreLevel::range_inclusive(
            ScoreLevel { level: 1, plus: false },
            ScoreLevel { level: 15, plus: false },
        )
    }

    /// Reads a level such as "13" or "13+".
    pub fn from_str(s: &str) -> (r: Result<ScoreLevel, ScoreLevelParseError>)
        ensures
            r == parse_level_spec(s@),
    {
        let n = s.unicode_len();
        let plus = n > 0 && s.get_char(n - 1) == '+';
        let body = if plus { s.substring_char(0, n - 1) } else { s };
        assert(body@ =~= (if plus { s@.drop_last() } else { s@ }));
        match parse_unsigned_max(body, 255) {
            None => Err(ScoreLevelParseError::NotANumber),
            Some(v) => match ScoreLevel::new(v as u8, plus) {
                Ok(l) => Ok(l),
                Err(e) => Err(ScoreLevelParseError::OutOfRange(e)),
            },
        }
    }

    /// The level as shown, e.g. "13+".
    pub fn to_string(self) -> (r: String)
        ensures
            r@ == dec(self.level as nat) + (if self.plus { seq!['+'] } else { Seq::empty() }),
    {
        let mut r = String::new();
        push_decimal(&mut r, self.level as u64);
        if self.plus {
            push_char(&mut r, '+');
        }
        r
    }

    /// The level of a score constant with the "+" boundary at .6.
    pub fn from_score_constant(value: ScoreConstant) -> (r: ScoreLevel)
        ensures
            r == to_lv_spec(value.value() as int, true),
    {
        let v = value.get();
        let level = v / 10;
        ScoreLevel { level, plus: 7 <= level && level <= 14 && v % 10 >= 6 }
    }
}

/// The base score constant and the number of constants of a level.
pub open spec fn offset_and_count_spec(buddies_plus_or_later: bool, level: ScoreLevel) -> (int, int) {
    let r = constant_range(level.level, level.plus, buddies_plus_or_later);
    (r.0, r.1 - r.0)
}

fn offset_and_count(version: MaimaiVersion, level: ScoreLevel) -> (r: (u8, u8))
    requires
        1 <= level.level <= 15,
    ensures
        r.0 == offset_and_count_spec(is_buddies_plus_or_later(version), level).0,
        r.1 == offset_and_count_spec(is_buddies_plus_or_later(version), level).1,
{
    let a = level.level;
    if a <= 6 {
        (a * 10, 10)
    } else if a <= 14 {
        let boundary: u8 = if version.to_i8() >= 22 { 6 } else { 7 };
        if level.plus {
            (a * 10 + boundary, 10 - boundary)
        } else {
            (a * 10, boundary)
        }
    } else {
        (150, 1)
    }
}

impl ScoreConstant {
    /// The level this constant is shown as in `version`.
    pub fn to_lv(self, version: MaimaiVersion) -> (r: ScoreLevel)
        ensures
            r == to_lv_spec(self.value() as int, is_buddies_plus_or_later(version)),
            valid_level(r.level, r.plus),
    {
        let boundary: u8 = if version.to_i8() >= 22 { 6 } else { 7 };
        let value = self.get();
        let level = value / 10;
        ScoreLevel { level, plus: 7 <= level && level <= 14 && value % 10 >= boundary }
    }

    /// The constant as shown, e.g. "13.2".
    pub fn to_string(self) -> (r: String)
        ensures
            r@ == dec((self.value() / 10) as nat) + seq!['.'] + dec((self.value() % 10) as nat),
    {
        let v = self.get();
        let mut r = String::new();
        push_decimal(&mut r, (v / 10) as u64);
        push_char(&mut r, '.');
        push_decimal(&mut r, (v % 10) as u64);
        r
    }
}

impl RankCoefficient {
    /// The coefficient as shown, e.g. "22.4".
    pub fn to_string(self) -> (r: String)
        ensures
            r@ == dec((self.0 / 10) as nat) + seq!['.'] + dec((self.0 % 10) as nat),
    {
        let mut r = String::new();
        push_decimal(&mut r, self.0 / 10);
        push_char(&mut r, '.');
        push_decimal(&mut r, self.0 % 10);
        r
    }
}

/// How a score constant is shown as a level: x.0 to x.9 are level x; from
/// level 7 to 14 the decimals from .7 up are "x+", and .6 is "x+" from
/// BUDDiES PLUS on and "x" before; below level 7 and at 15 there is no "+".
pub proof fn lemma_to_lv_plus(l: u8, d: u8)
    requires
        1 <= l <= 15,
        d <= 9,
        l == 15 ==> d == 0,
    ensures
        to_lv_spec(l * 10 + d, false).level == l && to_lv_spec(l * 10 + d, true).level == l,
        l <= 6 || l == 15 ==> !to_lv_spec(l * 10 + d, false).plus && !to_lv_spec(l * 10 + d, true).plus,
        7 <= l <= 14 && d <= 5 ==> !to_lv_spec(l * 10 + d, false).plus && !to_lv_spec(l * 10 + d, true).plus,
        7 <= l <= 14 && d >= 7 ==> to_lv_spec(l * 10 + d, false).plus && to_lv_spec(l * 10 + d, true).plus,
        7 <= l <= 14 && d == 6 ==> to_lv_spec(l * 10 + d, true).plus && !to_lv_spec(l * 10 + d, false).plus,
{
    assert((l * 10 + d) / 10 == l) by (nonlinear_arith)
        requires
            d <= 9,
    ;
    assert((l * 10 + d) % 10 == d) by (nonlinear_arith)
        requires
            d <= 9,
    ;
}

/// BUDDiES PLUS is the first version with the new "+" boundary.
pub proof fn lemma_plus_boundary_from_buddies_plus()
    ensures
        is_buddies_plus_or_later(MaimaiVersion::BuddiesPlus),
        !is_buddies_plus_or_later(MaimaiVersion::Buddies),
        forall|v: MaimaiVersion| #[trigger] is_buddies_plus_or_later(v) <==> !version_lt(v, MaimaiVersion::BuddiesPlus),
{
}

/// A score constant is in the range of exactly the level it is shown as:
/// for a valid level `l`, `c` lies in `l`'s range iff `c` is shown as `l`.
pub proof fn lemma_constant_range_matches_to_lv(c: int, l: ScoreLevel, flag: bool)
    requires
        10 <= c <= 150,
        valid_level(l.level, l.plus),
    ensures
        (constant_range(l.level, l.plus, flag).0 <= c < constant_range(l.level, l.plus, flag).1)
            <==> to_lv_spec(c, flag) == l,
{
}

/// `range_inclusive` lists levels in strictly increasing order.
pub proof fn lemma_levels_upto_increasing(x: ScoreLevel, y: ScoreLevel)
    requires
        x.level <= 15,
    ensures
        forall|i: int, j: int|
            0 <= i < j < levels_upto(x, y).len() ==> level_lt(
                #[trigger] levels_upto(x, y)[i],
                #[trigger] levels_upto(x, y)[j],
            ),
        forall|i: int| 0 <= i < levels_upto(x, y).len() ==> level_le(x, #[trigger] levels_upto(x, y)[i]),
    decreases level_measure(x),
{
    let s = levels_upto(x, y);
    match next_level(x) {
        None => {},
        Some(n) => {
            lemma_levels_upto_increasing(n, y);
            let t = levels_upto(n, y);
            let head: Seq<ScoreLevel> = if level_le(x, y) { seq![x] } else { Seq::empty() };
            assert(s == head + t);
            assert forall|i: int, j: int| 0 <= i < j < s.len() implies level_lt(
                #[trigger] s[i],
                #[trigger] s[j],
            ) by {
                if head.len() == 1 && i == 0 {
                    assert(s[j] == t[j - 1]);
                    assert(level_le(n, t[j - 1]));
                } else {
                    assert(s[i] == t[i - head.len()]);
                    assert(s[j] == t[j - head.len()]);
                }
            }
            assert forall|i: int| 0 <= i < s.len() implies level_le(x, #[trigger] s[i]) by {
                if !(head.len() == 1 && i == 0) {
                    assert(s[i] == t[i - head.len()]);
                }
            }
        },
    }
}

/// There are 23 levels: 1 to 15 plus the "+" variants of 7 to 14.
pub proof fn lemma_all_levels_count()
    ensures
        levels_upto(ScoreLevel { level: 1, plus: false }, ScoreLevel { level: 15, plus: false }).len()
            == 23,
{
    reveal_with_fuel(levels_upto, 24);
}

/// A set of offsets 0..16, one bit each.
#[derive(Clone, Copy, PartialEq, Eq, Structural, Debug)]
pub struct CandidateBitmask(u16);

impl CandidateBitmask {
    pub closed spec fn bits_value(self) -> u16 {
        self.0
    }

    /// The mask with exactly the given bits.
    pub fn new(bits: u16) -> (r: CandidateBitmask)
        ensures
            r.bits_value() == bits,
    {
        CandidateBitmask(bits)
    }

    pub fn get(self) -> (r: u16)
        ensures
            r == self.bits_value(),
    {
        self.0
    }

    /// No bit is set.
    pub fn empty(self) -> (r: bool)
        ensures
            r == (self.bits_value() == 0),
    {
        self.0 == 0
    }

    /// Bit `x` is set; only the eight lowest bits are ever reported.
    pub fn has(self, x: u8) -> (r: bool)
        ensures
            r == (x < 8 && bit_at(self.bits_value(), x as u16)),
    {
        if x < 8 {
            proof {
                lemma_single_bit_and(self.0, x as u16);
            }
            ((1u16 << x as u16) & self.0) > 0
        } else {
            false
        }
    }

    /// The positions of the set bits, in increasing order.
    pub fn bits(self) -> (r: Vec<u8>)
        ensures
            r@.len() == bit_list(self.bits_value(), 0).len(),
            forall|k: int| 0 <= k < r@.len() ==> r@[k] as int == #[trigger] bit_list(self.bits_value(), 0)[k],
    {
        let m = self.0;
        let mut r: Vec<u8> = Vec::new();
        let mut i: u16 = 0;
        while i < 16
            invariant
                0 <= i <= 16,
                bit_list(m, 0) == Seq::new(r@.len(), |k: int| r@[k] as int) + bit_list(m, i as int),
            decreases 16 - i,
        {
            let ghost before = Seq::new(r@.len(), |k: int| r@[k] as int);
            if (m >> i) & 1 == 1 {
                r.push(i as u8);
                assert(Seq::new(r@.len(), |k: int| r@[k] as int) =~= before.push(i as int));
                assert(before + bit_list(m, i as int) =~= before.push(i as int) + bit_list(m, i + 1));
            }
            i = i + 1;
        }
        assert(bit_list(m, 16) =~= Seq::<int>::empty());
        assert(bit_list(m, 0) =~= Seq::new(r@.len(), |k: int| r@[k] as int));
        r
    }

    /// The number of set bits.
    pub fn count_bits(self) -> (r: usize)
        ensures
            r == bit_list(self.bits_value(), 0).len(),
    {
        let m = self.0;
        let mut n: usize = 0;
        let mut i: u16 = 0;
        while i < 16
            invariant
                0 <= i <= 16,
                bit_list(m, 0).len() == n + bit_list(m, i as int).len(),
                n <= i,
            decreases 16 - i,
        {
            if (m >> i) & 1 == 1 {
                n = n + 1;
            }
            i = i + 1;
        }
        n
    }
}

/// The internal level of a score as a set of possible score constants:
/// `offset + i` is possible for every set bit `i` of `mask`.
#[derive(Clone, Copy, PartialEq, Eq, Structural, Debug)]
pub struct InternalScoreLevel {
    offset: ScoreConstant,
    mask: CandidateBitmask,
}

/// Score constants `offset + i` for the set bits `i` of `mask`.
pub open spec fn candidates_of(offset: int, mask: u16) -> Set<int> {
    Set::new(|c: int| 0 <= c - offset < 16 && bit_at(mask, (c - offset) as u16))
}

impl InternalScoreLevel {
    /// At most ten candidates, and every candidate is at most 15.0.
    #[verifier::type_invariant]
    spec fn inv(self) -> bool {
        &&& self.mask.0 < 1024
        &&& forall|j: u16| j < 16 && #[trigger] bit_at(self.mask.0, j) ==> self.offset.0 + j <= 150
    }

    pub closed spec fn offset_value(self) -> int {
        self.offset.value() as int
    }

    pub closed spec fn mask_value(self) -> u16 {
        self.mask.0
    }

    /// The possible score constants (in tenths).
    pub open spec fn candidate_set(self) -> Set<int> {
        candidates_of(self.offset_value(), self.mask_value())
    }

    /// The possible score constants in increasing order.
    pub open spec fn candidate_list(self) -> Seq<int> {
        bit_list(self.mask_value(), 0).map_values(|i: int| self.offset_value() + i)
    }

    /// The normal form: the lowest candidate is the offset, and the empty
    /// set has offset 1.0.
    pub open spec fn is_canonical(self) -> bool {
        if self.mask_value() == 0 {
            self.offset_value() == 10
        } else {
            bit_at(self.mask_value(), 0)
        }
    }

    pub fn offset(self) -> (r: ScoreConstant)
        ensures
            r.value() == self.offset_value(),
    {
        self.offset
    }

    pub fn mask(self) -> (r: CandidateBitmask)
        ensures
            r.bits_value() == self.mask_value(),
    {
        self.mask
    }

    /// The level with the given offset and mask, if it has at most ten
    /// candidates, all of them at most 15.0.
    pub fn from_parts(offset: ScoreConstant, mask: CandidateBitmask) -> (r: Option<InternalScoreLevel>)
        ensures
            r matches Some(x) ==> x.offset_value() == offset.value() && x.mask_value()
                == mask.bits_value(),
            r is None <==> !(mask.bits_value() < 1024 && forall|j: u16|
                j < 16 && #[trigger] bit_at(mask.bits_value(), j) ==> offset.value() + j <= 150),
    {
        let o = offset.get();
        let m = mask.get();
        if m >= 1024 {
            return None;
        }
        let mut j: u16 = 0;
        while j < 16
            invariant
                0 <= j <= 16,
                10 <= o <= 150,
                o == offset.value(),
                m == mask.bits_value(),
                forall|k: u16| k < j && #[trigger] bit_at(m, k) ==> o + k <= 150,
            decreases 16 - j,
        {
            if (m >> j) & 1 == 1 && o as u16 + j > 150 {
                assert(bit_at(m, j));
                return None;
            }
            j = j + 1;
        }
        Some(InternalScoreLevel { offset, mask })
    }

    /// No score constant is possible.
    pub fn empty() -> (r: InternalScoreLevel)
        ensures
            r.candidate_set() == Set::<int>::empty(),
            r.offset_value() == 10 && r.mask_value() == 0,
    {
        proof {
            assert forall|j: u16| j < 16 && #[trigger] bit_at(0u16, j) implies 10 + j <= 150 by {
                lemma_zero_bits(j);
            }
        }
        let r = InternalScoreLevel { offset: ScoreConstant(10), mask: CandidateBitmask(0) };
        proof {
            assert forall|c: int| !r.candidate_set().contains(c) by {
                if 0 <= c - 10 < 16 {
                    lemma_zero_bits((c - 10) as u16);
                }
            }
            assert(r.candidate_set() =~= Set::<int>::empty());
        }
        r
    }

    /// Exactly the given score constant.
    pub fn known(value: ScoreConstant) -> (r: InternalScoreLevel)
        ensures
            r.candidate_set() == Set::<int>::empty().insert(value.value() as int),
            r.offset_value() == value.value() && r.mask_value() == 1,
    {
        proof {
            use_type_invariant(&value);
            assert forall|j: u16| j < 16 && #[trigger] bit_at(1u16, j) implies value.0 + j <= 150 by {
                lemma_one_bit(j);
            }
        }
        let r = InternalScoreLevel { offset: value, mask: CandidateBitmask(1) };
        proof {
            assert forall|c: int| #[trigger] r.candidate_set().contains(c) <==> c == value.value() by {
                if 0 <= c - value.value() < 16 {
                    lemma_one_bit((c - value.value()) as u16);
                }
            }
            assert(r.candidate_set() =~= Set::<int>::empty().insert(value.value() as int));
        }
        r
    }

    /// Every score constant of a level in a version.
    pub fn unknown(version: MaimaiVersion, level: ScoreLevel) -> (r: InternalScoreLevel)
        requires
            1 <= level.level <= 15,
        ensures
            forall|c: int| #[trigger] r.candidate_set().contains(c) <==> constant_range(
                level.level,
                level.plus,
                is_buddies_plus_or_later(version),
            ).0 <= c < constant_range(level.level, level.plus, is_buddies_plus_or_later(version)).1,
            r.offset_value() == constant_range(level.level, level.plus, is_buddies_plus_or_later(version)).0,
            bit_at(r.mask_value(), 0),
            r.candidate_list() == constant_run(
                constant_range(level.level, level.plus, is_buddies_plus_or_later(version)).0,
                constant_range(level.level, level.plus, is_buddies_plus_or_later(version)).1,
            ),
    {
        let r = Self::unknown_set(version, level);
        proof {
            let (lo, hi) = constant_range(level.level, level.plus, is_buddies_plus_or_later(version));
            let run = constant_run(lo, hi);
            lemma_candidate_list(r);
            assert forall|c: int| run.contains(c) <==> r.candidate_list().contains(c) by {
                if lo <= c < hi {
                    assert(run[c - lo] == c);
                }
            }
            lemma_increasing_unique(run, r.candidate_list());
        }
        r
    }

    fn unknown_set(version: MaimaiVersion, level: ScoreLevel) -> (r: InternalScoreLevel)
        requires
            1 <= level.level <= 15,
        ensures
            forall|c: int| #[trigger] r.candidate_set().contains(c) <==> constant_range(
                level.level,
                level.plus,
                is_buddies_plus_or_later(version),
            ).0 <= c < constant_range(level.level, level.plus, is_buddies_plus_or_later(version)).1,
            r.offset_value() == constant_range(level.level, level.plus, is_buddies_plus_or_later(version)).0,
            bit_at(r.mask_value(), 0),
    {
        let (offset, count) = offset_and_count(version, level);
        proof {
            lemma_pow_pos(count as u16);
        }
        let m: u16 = (1u16 << count as u16) - 1;
        proof {
            assert((1u16 << (count as u16)) <= 1024) by (bit_vector)
                requires
                    count <= 10,
            ;
            assert forall|j: u16| j < 16 && #[trigger] bit_at(m, j) implies offset + j <= 150 by {
                lemma_low_mask(m, count as u16, j);
            }
            lemma_low_mask(m, count as u16, 0);
        }
        let r = InternalScoreLevel { offset: ScoreConstant(offset), mask: CandidateBitmask(m) };
        proof {
            assert forall|c: int| #[trigger] r.candidate_set().contains(c) <==> offset <= c < offset + count by {
                if 0 <= c - offset < 16 {
                    lemma_low_mask(m, count as u16, (c - offset) as u16);
                }
            }
        }
        r
    }

    /// The candidates of a level in a version that `mask` (relative to the
    /// first constant of the level) allows. The mask is never rejected.
    pub fn new(version: MaimaiVersion, level: ScoreLevel, mask: CandidateBitmask) -> (r: Result<
        InternalScoreLevel,
        CandidateBitmask,
    >)
        requires
            1 <= level.level <= 15,
        ensures
            r matches Ok(x) && x.offset_value() == constant_range(
                level.level,
                level.plus,
                is_buddies_plus_or_later(version),
            ).0 && forall|c: int| #[trigger] x.candidate_set().contains(c) <==> (constant_range(
                level.level,
                level.plus,
                is_buddies_plus_or_later(version),
            ).0 <= c < constant_range(level.level, level.plus, is_buddies_plus_or_later(version)).1
                && bit_at(mask.bits_value(), (c - x.offset_value()) as u16)),
    {
        let ret = Self::unknown(version, level);
        proof {
            use_type_invariant(&ret);
        }
        broadcast use vstd::std_specs::bits::axiom_u16_trailing_zeros;
        if mask.0.trailing_zeros() < ret.mask.0.trailing_zeros() {
            assert(ret.mask.0.trailing_zeros() == 0);
            return Err(mask);
        }
        let m = ret.mask.0 & mask.0;
        proof {
            lemma_bit_and(ret.mask.0, mask.0, 0);
            assert forall|j: u16| j < 16 && #[trigger] bit_at(m, j) implies ret.offset.0 + j <= 150 by {
                lemma_bit_and(ret.mask.0, mask.0, j);
            }
        }
        let r = InternalScoreLevel { offset: ret.offset, mask: CandidateBitmask(m) };
        proof {
            assert forall|c: int| #[trigger] r.candidate_set().contains(c) <==> (ret.candidate_set().contains(c)
                && bit_at(mask.0, (c - r.offset_value()) as u16)) by {
                if 0 <= c - r.offset_value() < 16 {
                    lemma_bit_and(ret.mask.0, mask.0, (c - r.offset_value()) as u16);
                }
            }
            assert forall|c: int| ret.candidate_set().contains(c) ==> 0 <= c - r.offset_value() < 16 by {}
        }
        Ok(r)
    }
}

impl InternalScoreLevel {
    /// The same candidates in normal form.
    pub fn canonicaliize(self) -> (r: InternalScoreLevel)
        ensures
            r.candidate_set() == self.candidate_set(),
            r.candidate_list() == self.candidate_list(),
            r.is_canonical(),
            self.is_canonical() ==> r == self,
    {
        let r = self.canonicaliize_set();
        proof {
            lemma_candidate_list_of_set(r, self);
            if self.is_canonical() {
                lemma_canonical_unique(r, self);
            }
        }
        r
    }

    fn canonicaliize_set(self) -> (r: InternalScoreLevel)
        ensures
            r.candidate_set() == self.candidate_set(),
            r.is_canonical(),
    {
        proof {
            use_type_invariant(&self);
            use_type_invariant(&self.offset);
        }
        broadcast use vstd::std_specs::bits::axiom_u16_trailing_zeros;
        let m = self.mask.0;
        if m == 0 {
            let r = Self::empty();
            proof {
                assert forall|c: int| !self.candidate_set().contains(c) by {
                    if 0 <= c - self.offset_value() < 16 {
                        lemma_zero_bits((c - self.offset_value()) as u16);
                    }
                }
                assert(self.candidate_set() =~= r.candidate_set());
            }
            return r;
        }
        let tz = m.trailing_zeros();
        assert(bit_at(m, tz as u16));
        let new_offset = self.offset.0 + tz as u8;
        let new_mask = m >> tz as u16;
        proof {
            lemma_shr_le(m, tz as u16);
            assert forall|j: u16| j < 16 && #[trigger] bit_at(new_mask, j) implies new_offset + j <= 150 by {
                lemma_bit_shr(m, tz as u16, j);
                assert(bit_at(m, (j + tz) as u16));
            }
            lemma_bit_shr(m, tz as u16, 0);
        }
        let r = InternalScoreLevel { offset: ScoreConstant(new_offset), mask: CandidateBitmask(new_mask) };
        proof {
            assert forall|c: int| #[trigger] r.candidate_set().contains(c) <==> self.candidate_set().contains(c) by {
                let i = c - self.offset_value();
                let j = c - new_offset;
                if 0 <= j < 16 {
                    lemma_bit_shr(m, tz as u16, j as u16);
                }
                if 0 <= i < tz {
                    assert((m >> (i as u16)) & 1u16 == 0u16);
                }
            }
            assert(r.candidate_set() =~= self.candidate_set());
            lemma_zero_bits(0);
        }
        r
    }

    /// The intersection of `x`'s and `y`'s candidates, where `x` starts no
    /// lower than `y`.
    fn merge(x: InternalScoreLevel, y: InternalScoreLevel) -> (r: InternalScoreLevel)
        requires
            x.offset_value() >= y.offset_value(),
        ensures
            r.candidate_set() == x.candidate_set().intersect(y.candidate_set()),
            r.is_canonical(),
    {
        proof {
            use_type_invariant(&x);
            use_type_invariant(&y);
        }
        broadcast use vstd::std_specs::bits::axiom_u16_leading_zeros;
        let diff: u8 = x.offset.0 - y.offset.0;
        let lz = y.mask.0.leading_zeros();
        proof {
            if lz < 16 {
                let top = (15 - lz) as u16;
                assert(!bit_at(y.mask.0, top) ==> top < 10 || !bit_at(y.mask.0, top));
                if top >= 10 {
                    lemma_below_1024(y.mask.0, top);
                }
                let ym = y.mask.0;
                assert((ym >> top) & 1u16 != 0u16);
                assert((ym >> top) & 1u16 != 0u16 ==> (ym >> top) & 1u16 == 1u16) by (bit_vector);
            }
        }
        let y_span: u8 = (16 - lz) as u8;
        assert(y_span <= 10);
        let k: u8 = y_span.saturating_sub(diff);
        proof {
            lemma_pow_pos(k as u16);
        }
        let x_mask: u16 = (1u16 << k as u16) - 1;
        let x_masked = x.mask.0 & x_mask;
        // Every set bit `j` of `y` lies below `y_span`.
        assert(forall|j: u16| j < 16 && #[trigger] bit_at(y.mask.0, j) ==> j < y_span);
        if x_masked == 0 {
            let r = Self::empty();
            proof {
                assert forall|c: int| !(x.candidate_set().contains(c) && y.candidate_set().contains(c)) by {
                    let i = c - x.offset_value();
                    let j = c - y.offset_value();
                    if x.candidate_set().contains(c) && y.candidate_set().contains(c) {
                        assert(bit_at(y.mask.0, j as u16));
                        assert(j < y_span);
                        lemma_low_mask(x_mask, k as u16, i as u16);
                        lemma_bit_and(x.mask.0, x_mask, i as u16);
                        lemma_zero_bits(i as u16);
                    }
                }
                assert(r.candidate_set() =~= x.candidate_set().intersect(y.candidate_set()));
            }
            return r;
        }
        proof {
            if k == 0 {
                assert forall|i: u16| i < 16 implies !bit_at(x_masked, i) by {
                    lemma_low_mask(x_mask, 0, i);
                    lemma_bit_and(x.mask.0, x_mask, i);
                }
                assert forall|i: u16| i < 16 implies #[trigger] bit_at(x_masked, i) == bit_at(0u16, i) by {
                    lemma_zero_bits(i);
                }
                lemma_bits_ext(x_masked, 0u16);
            }
        }
        assert(diff < y_span);
        let shifted = x_masked << diff as u16;
        let m = shifted & y.mask.0;
        proof {
            lemma_bit_and(shifted, y.mask.0, 0);
            assert forall|j: u16| j < 16 && #[trigger] bit_at(m, j) implies y.offset.0 + j <= 150 by {
                lemma_bit_and(shifted, y.mask.0, j);
            }
        }
        let raw = InternalScoreLevel { offset: y.offset, mask: CandidateBitmask(m) };
        proof {
            assert forall|c: int| #[trigger] raw.candidate_set().contains(c) <==> (x.candidate_set().contains(c)
                && y.candidate_set().contains(c)) by {
                let i = c - x.offset_value();
                let j = c - y.offset_value();
                if 0 <= j < 16 {
                    lemma_bit_and(shifted, y.mask.0, j as u16);
                    lemma_bit_shl(x_masked, diff as u16, j as u16);
                    if j >= diff {
                        lemma_bit_and(x.mask.0, x_mask, i as u16);
                        lemma_low_mask(x_mask, k as u16, i as u16);
                    }
                }
            }
        }
        raw.canonicaliize()
    }

    /// The score constants possible for both.
    pub fn intersection(self, other: InternalScoreLevel) -> (r: InternalScoreLevel)
        ensures
            r.candidate_set() == self.candidate_set().intersect(other.candidate_set()),
            r.is_canonical(),
    {
        if self.mask.empty() || other.mask.empty() {
            let r = Self::empty();
            proof {
                assert forall|c: int| !(self.candidate_set().contains(c) && other.candidate_set().contains(c)) by {
                    if 0 <= c - self.offset_value() < 16 {
                        lemma_zero_bits((c - self.offset_value()) as u16);
                    }
                    if 0 <= c - other.offset_value() < 16 {
                        lemma_zero_bits((c - other.offset_value()) as u16);
                    }
                }
                assert(r.candidate_set() =~= self.candidate_set().intersect(other.candidate_set()));
            }
            return r;
        }
        let x = self.canonicaliize();
        let y = other.canonicaliize();
        if x.offset.0 > y.offset.0 {
            Self::merge(x, y)
        } else {
            let r = Self::merge(y, x);
            assert(r.candidate_set() =~= self.candidate_set().intersect(other.candidate_set()));
            r
        }
    }
}

impl InternalScoreLevel {
    /// The number of possible score constants.
    pub fn count_candidates(self) -> (r: usize)
        ensures
            r == self.candidate_list().len(),
            forall|x: int| #[trigger] self.candidate_set().contains(x) ==> 10 <= x <= 150,
    {
        proof {
            use_type_invariant(&self);
            use_type_invariant(&self.offset);
            assert forall|x: int| #[trigger] self.candidate_set().contains(x) implies 10 <= x <= 150 by {
                assert(bit_at(self.mask.0, (x - self.offset.0) as u16));
            }
        }
        self.mask.count_bits()
    }

    /// No score constant is possible.
    pub fn is_empty(&self) -> (r: bool)
        ensures
            r == (self.candidate_list().len() == 0),
    {
        self.mask.count_bits() == 0
    }

    /// Exactly one score constant is possible.
    pub fn is_unique(self) -> (r: bool)
        ensures
            r == (self.candidate_list().len() == 1),
    {
        self.mask.count_bits() == 1
    }

    /// The possible score constants in increasing order.
    pub fn candidates(self) -> (r: Vec<ScoreConstant>)
        ensures
            r@.len() == self.candidate_list().len(),
            forall|k: int|
                0 <= k < r@.len() ==> #[trigger] r@[k].value() == self.candidate_list()[k],
    {
        proof {
            use_type_invariant(&self);
            lemma_bit_list(self.mask.0, 0);
        }
        let bits = self.mask.bits();
        let ghost list = bit_list(self.mask.0, 0);
        let mut r: Vec<ScoreConstant> = Vec::new();
        let mut k: usize = 0;
        let o = self.offset.get();
        while k < bits.len()
            invariant
                0 <= k <= bits@.len(),
                bits@.len() == list.len(),
                list == bit_list(self.mask.0, 0),
                forall|q: int| 0 <= q < bits@.len() ==> bits@[q] as int == #[trigger] list[q],
                forall|x: int| #[trigger] list.contains(x) <==> (0 <= x < 16 && bit_at(self.mask.0, x as u16)),
                forall|j: u16| j < 16 && #[trigger] bit_at(self.mask.0, j) ==> self.offset.0 + j <= 150,
                o == self.offset.value(),
                o == self.offset.0,
                10 <= o,
                r@.len() == k,
                forall|q: int| 0 <= q < k ==> #[trigger] r@[q].value() == o + list[q],
            decreases bits@.len() - k,
        {
            let i = bits[k];
            assert(list.contains(list[k as int]));
            assert(bit_at(self.mask.0, i as u16));
            r.push(ScoreConstant(o + i));
            k = k + 1;
        }
        r
    }

    /// The score constant, if exactly one is possible.
    pub fn get_if_unique(self) -> (r: Option<ScoreConstant>)
        ensures
            r matches Some(c) ==> self.candidate_list().len() == 1 && c.value()
                == self.candidate_list()[0],
            r is None ==> self.candidate_list().len() != 1,
    {
        if self.is_unique() {
            let c = self.candidates();
            Some(c[0])
        } else {
            None
        }
    }

    /// The level of the lowest possible constant in `version`.
    pub fn into_level(self, version: MaimaiVersion) -> (r: ScoreLevel)
        ensures
            r == to_lv_spec(self.offset_value(), is_buddies_plus_or_later(version)),
            valid_level(r.level, r.plus),
    {
        self.offset.to_lv(version)
    }

    /// `level` is possible and lies less than 0.8 above the offset.
    pub fn contains(self, level: ScoreConstant) -> (r: bool)
        ensures
            r == (self.candidate_set().contains(level.value() as int) && level.value()
                - self.offset_value() < 8),
    {
        let c = level.get();
        let o = self.offset.get();
        match c.checked_sub(o) {
            Some(diff) => self.mask.has(diff),
            None => false,
        }
    }

    /// The candidates as a mask relative to the first constant of the level
    /// that the offset is shown as in `version`.
    pub fn in_lv_mask(self, version: MaimaiVersion) -> (r: CandidateBitmask)
        ensures
            forall|j: u16|
                j < 16 ==> #[trigger] bit_at(r.bits_value(), j) == self.candidate_set().contains(
                    constant_range(
                        self.into_level_spec(version).level,
                        self.into_level_spec(version).plus,
                        is_buddies_plus_or_later(version),
                    ).0 + j,
                ),
    {
        proof {
            use_type_invariant(&self);
            use_type_invariant(&self.offset);
        }
        let level = self.into_level(version);
        let (offset, _) = offset_and_count(version, level);
        proof {
            lemma_constant_range_matches_to_lv(
                self.offset.0 as int,
                level,
                is_buddies_plus_or_later(version),
            );
        }
        let diff = self.offset.0 - offset;
        let r = CandidateBitmask(self.mask.0 << diff as u16);
        proof {
            assert forall|j: u16| j < 16 implies #[trigger] bit_at(r.0, j) == self.candidate_set().contains(offset + j) by {
                lemma_bit_shl(self.mask.0, diff as u16, j);
            }
        }
        r
    }

    pub open spec fn into_level_spec(self, version: MaimaiVersion) -> ScoreLevel {
        to_lv_spec(self.offset_value(), is_buddies_plus_or_later(version))
    }

    /// Keeps the candidates for which `f` answers true.
    pub fn retain(&mut self, f: impl Fn(ScoreConstant) -> bool)
        requires
            forall|c: ScoreConstant| #[trigger] f.requires((c,)),
        ensures
            final(self).offset_value() == old(self).offset_value(),
            forall|c: ScoreConstant|
                #[trigger] old(self).candidate_set().contains(c.value() as int) ==> (final(self).candidate_set().contains(c.value() as int) ==> f.ensures((c,), true))
                    && (!final(self).candidate_set().contains(c.value() as int) ==> f.ensures((c,), false)),
            forall|x: int|
                #[trigger] final(self).candidate_set().contains(x) ==> old(self).candidate_set().contains(x),
    {
        proof {
            use_type_invariant(&*self);
        }
        let bits = self.mask.bits();
        let cands = self.candidates();
        let ghost list = bit_list(self.mask.0, 0);
        let ghost old_self = *self;
        proof {
            lemma_bit_list(self.mask.0, 0);
        }
        let mut m = self.mask.0;
        let mut k: usize = 0;
        proof {
            assert forall|q: int| 0 <= q < list.len() implies bit_at(m, #[trigger] list[q] as u16) by {
                assert(list.contains(list[q]));
            }
        }
        while k < bits.len()
            invariant
                0 <= k <= bits@.len(),
                bits@.len() == list.len(),
                cands@.len() == list.len(),
                list == bit_list(old_self.mask.0, 0),
                forall|q: int| 0 <= q < bits@.len() ==> bits@[q] as int == #[trigger] list[q],
                forall|q: int| 0 <= q < cands@.len() ==> #[trigger] cands@[q].value() == old_self.offset.value() + list[q],
                forall|x: int| #[trigger] list.contains(x) <==> (0 <= x < 16 && bit_at(old_self.mask.0, x as u16)),
                forall|i: int, j: int| 0 <= i < j < list.len() ==> list[i] < list[j],
                forall|q: int| 0 <= q < list.len() ==> 0 <= #[trigger] list[q] < 16,
                forall|c: ScoreConstant| #[trigger] f.requires((c,)),
                forall|j: u16| j < 16 && #[trigger] bit_at(m, j) ==> bit_at(old_self.mask.0, j),
                forall|q: int| k <= q < list.len() ==> bit_at(m, #[trigger] list[q] as u16),
                forall|q: int| 0 <= q < k ==> (bit_at(m, #[trigger] list[q] as u16) ==> f.ensures((cands@[q],), true))
                    && (!bit_at(m, list[q] as u16) ==> f.ensures((cands@[q],), false)),
                m <= old_self.mask.0,
            decreases bits@.len() - k,
        {
            let i = bits[k];
            assert(0 <= list[k as int] < 16);
            assert(i as int == list[k as int]);
            let keep = f(cands[k]);
            if !keep {
                let ghost before = m;
                proof {
                    assert forall|j: u16| j < 16 implies #[trigger] bit_at(before & !(1u16 << (i as u16)), j) == (bit_at(before, j) && j != i) by {
                        lemma_clear_bit(before, i as u16, j);
                    }
                    lemma_clear_bit(before, i as u16, 0);
                    assert forall|q: int| k < q < list.len() implies bit_at(before & !(1u16 << (i as u16)), #[trigger] list[q] as u16) by {
                        assert(list[q] != list[k as int]);
                    }
                    assert forall|q: int| 0 <= q < k implies bit_at(before & !(1u16 << (i as u16)), #[trigger] list[q] as u16) == bit_at(before, list[q] as u16) by {
                        assert(list[q] != list[k as int]);
                    }
                }
                m = m & !(1u16 << i as u16);
            }
            k = k + 1;
        }
        proof {
            assert forall|j: u16| j < 16 && #[trigger] bit_at(m, j) implies old_self.offset.0 + j <= 150 by {
                assert(bit_at(old_self.mask.0, j));
            }
        }
        let offset = self.offset;
        *self = InternalScoreLevel { offset, mask: CandidateBitmask(m) };
        proof {
            assert forall|c: ScoreConstant| #[trigger] old_self.candidate_set().contains(c.value() as int) implies
                (self.candidate_set().contains(c.value() as int) ==> f.ensures((c,), true))
                && (!self.candidate_set().contains(c.value() as int) ==> f.ensures((c,), false)) by {
                let x = c.value() - old_self.offset.value();
                assert(list.contains(x));
                let q = choose|q: int| 0 <= q < list.len() && list[q] == x;
                assert(cands@[q].value() == c.value());
                assert(cands@[q] == c);
            }
        }
    }
}

/// Two increasing sequences with the same elements are the same sequence.
pub proof fn lemma_increasing_unique(a: Seq<int>, b: Seq<int>)
    requires
        forall|i: int, j: int| 0 <= i < j < a.len() ==> a[i] < a[j],
        forall|i: int, j: int| 0 <= i < j < b.len() ==> b[i] < b[j],
        forall|x: int| a.contains(x) <==> b.contains(x),
    ensures
        a == b,
    decreases a.len(),
{
    if a.len() == 0 {
        if b.len() > 0 {
            assert(b.contains(b[0]));
        }
        assert(a =~= b);
    } else if b.len() == 0 {
        assert(a.contains(a[0]));
    } else {
        assert(a.contains(a[0]) && b.contains(b[0]));
        let ka = choose|k: int| 0 <= k < a.len() && a[k] == b[0];
        let kb = choose|k: int| 0 <= k < b.len() && b[k] == a[0];
        assert(a[0] <= a[ka]);
        assert(b[0] <= b[kb]);
        let (a1, b1) = (a.drop_first(), b.drop_first());
        assert forall|x: int| a1.contains(x) <==> b1.contains(x) by {
            if a1.contains(x) {
                let k = choose|k: int| 0 <= k < a1.len() && a1[k] == x;
                assert(a[k + 1] == x && a.contains(x));
                let m = choose|m: int| 0 <= m < b.len() && b[m] == x;
                assert(m != 0);
                assert(b1[m - 1] == x);
            }
            if b1.contains(x) {
                let k = choose|k: int| 0 <= k < b1.len() && b1[k] == x;
                assert(b[k + 1] == x && b.contains(x));
                let m = choose|m: int| 0 <= m < a.len() && a[m] == x;
                assert(m != 0);
                assert(a1[m - 1] == x);
            }
        }
        lemma_increasing_unique(a1, b1);
        assert(a =~= b) by {
            assert forall|i: int| 0 <= i < a.len() implies a[i] == b[i] by {
                if i > 0 {
                    assert(a[i] == a1[i - 1] && b[i] == b1[i - 1]);
                }
            }
        }
    }
}

/// The candidate list is increasing and holds exactly the candidate set.
pub proof fn lemma_candidate_list(x: InternalScoreLevel)
    ensures
        forall|i: int, j: int|
            0 <= i < j < x.candidate_list().len() ==> x.candidate_list()[i] < x.candidate_list()[j],
        forall|c: int| #[trigger] x.candidate_list().contains(c) <==> x.candidate_set().contains(c),
{
    let o = x.offset_value();
    let bl = bit_list(x.mask_value(), 0);
    lemma_bit_list(x.mask_value(), 0);
    let l = x.candidate_list();
    assert forall|i: int, j: int| 0 <= i < j < l.len() implies l[i] < l[j] by {
        assert(bl[i] < bl[j]);
    }
    assert forall|c: int| #[trigger] l.contains(c) <==> x.candidate_set().contains(c) by {
        if l.contains(c) {
            let k = choose|k: int| 0 <= k < l.len() && l[k] == c;
            assert(bl.contains(bl[k]));
        }
        if x.candidate_set().contains(c) {
            assert(bl.contains(c - o));
            let k = choose|k: int| 0 <= k < bl.len() && bl[k] == c - o;
            assert(l[k] == c);
        }
    }
}

/// Levels with the same candidate set list the same candidates in the same
/// order.
pub proof fn lemma_candidate_list_of_set(x: InternalScoreLevel, y: InternalScoreLevel)
    requires
        x.candidate_set() == y.candidate_set(),
    ensures
        x.candidate_list() == y.candidate_list(),
{
    lemma_candidate_list(x);
    lemma_candidate_list(y);
    lemma_increasing_unique(x.candidate_list(), y.candidate_list());
}

/// The constants from `lo` up to `hi`, excluded, in increasing order.
pub open spec fn constant_run(lo: int, hi: int) -> Seq<int> {
    Seq::new((hi - lo) as nat, |i: int| lo + i)
}

/// Two normal forms with the same candidates are the same value.
pub proof fn lemma_canonical_unique(x: InternalScoreLevel, y: InternalScoreLevel)
    requires
        x.is_canonical(),
        y.is_canonical(),
        x.candidate_set() == y.candidate_set(),
    ensures
        x == y,
{
    let xo = x.offset_value();
    let yo = y.offset_value();
    if x.mask.0 != 0 {
        assert(x.candidate_set().contains(xo));
    }
    if y.mask.0 != 0 {
        assert(y.candidate_set().contains(yo));
    }
    if x.mask.0 == 0 || y.mask.0 == 0 {
        assert forall|c: int| !x.candidate_set().contains(c) by {
            if 0 <= c - xo < 16 {
                lemma_zero_bits((c - xo) as u16);
            }
            if 0 <= c - yo < 16 {
                lemma_zero_bits((c - yo) as u16);
            }
        }
    }
    assert(xo == yo);
    assert forall|j: u16| j < 16 implies #[trigger] bit_at(x.mask.0, j) == bit_at(y.mask.0, j) by {
        let c = xo + j;
        assert(x.candidate_set().contains(c) == y.candidate_set().contains(c));
        assert((c - xo) as u16 == j);
        assert((c - yo) as u16 == j);
        assert(x.candidate_set().contains(c) == bit_at(x.mask.0, j));
        assert(y.candidate_set().contains(c) == bit_at(y.mask.0, j));
    }
    lemma_bits_ext(x.mask.0, y.mask.0);
    assert(x.offset.0 == y.offset.0);
}

/// `x - w` wrapped to a byte.
pub open spec fn wrapping_sub_u8(x: int, w: int) -> int {
    if x >= w { x - w } else { x - w + 256 }
}

/// The text written for the middle value `x` of three consecutive values:
/// a run of consecutive values is written as "first-last", separated by commas.
pub open spec fn display_piece(w: int, x: int, y: int) -> Seq<char> {
    if wrapping_sub_u8(x, w) > 1 {
        (if w != 128 { seq![','] } else { Seq::empty() }) + dec(x as nat) + (if wrapping_sub_u8(y, x)
            == 1 { seq!['-'] } else { Seq::empty() })
    } else if wrapping_sub_u8(y, x) > 1 {
        dec(x as nat)
    } else {
        Seq::empty()
    }
}

/// The pieces for the values at positions `k` up to the second to last of `s`.
pub open spec fn display_pieces(s: Seq<int>, k: int) -> Seq<char>
    decreases s.len() - k,
{
    if k < 1 || k + 1 >= s.len() {
        Seq::empty()
    } else {
        display_piece(s[k - 1], s[k], s[k + 1]) + display_pieces(s, k + 1)
    }
}

/// How an internal level is shown: "empty", or the integral part followed
/// by the tenths of the candidates, e.g. "13.2,4-5" for 13.2, 13.4 and 13.5.
pub open spec fn display_spec(offset: int, mask: u16) -> Seq<char> {
    if mask == 0 {
        seq!['e', 'm', 'p', 't', 'y']
    } else {
        let digits = bit_list(mask, 0).map_values(|i: int| i + offset % 10);
        dec((offset / 10) as nat) + seq!['.'] + display_pieces(seq![128int] + digits + seq![128int], 1)
    }
}

/// Appends `display_piece(w, x, y)`.
fn push_display_piece(r: &mut String, w: u8, xv: u8, y: u8)
    ensures
        final(r)@ == old(r)@ + display_piece(w as int, xv as int, y as int),
{
    let wx: u8 = if xv >= w { xv - w } else { ((xv as u16 + 256) - w as u16) as u8 };
    let xy: u8 = if y >= xv { y - xv } else { ((y as u16 + 256) - xv as u16) as u8 };
    assert(wx as int == wrapping_sub_u8(xv as int, w as int));
    assert(xy as int == wrapping_sub_u8(y as int, xv as int));
    let ghost before = r@;
    if wx > 1 {
        if w != 128 {
            push_char(r, ',');
        }
        push_decimal(r, xv as u64);
        if xy == 1 {
            push_char(r, '-');
        }
    } else if xy > 1 {
        push_decimal(r, xv as u64);
    }
    assert(r@ =~= before + display_piece(w as int, xv as int, y as int));
}

impl InternalScoreLevel {
    /// The level as shown, e.g. "13.2,4-5".
    pub fn to_string(self) -> (r: String)
        ensures
            r@ == display_spec(self.offset_value(), self.mask_value()),
    {
        let mut r = String::new();
        if self.mask.empty() {
            push_char(&mut r, 'e');
            push_char(&mut r, 'm');
            push_char(&mut r, 'p');
            push_char(&mut r, 't');
            push_char(&mut r, 'y');
            assert(r@ =~= seq!['e', 'm', 'p', 't', 'y']);
            return r;
        }
        proof {
            lemma_bit_list(self.mask.0, 0);
        }
        let x = self.offset.get();
        push_decimal(&mut r, (x / 10) as u64);
        push_char(&mut r, '.');
        let bits = self.mask.bits();
        let ghost digits = bit_list(self.mask.0, 0).map_values(|i: int| i + x % 10);
        let ghost sq = seq![128int] + digits + seq![128int];
        let mut f: Vec<u8> = Vec::new();
        f.push(128);
        let mut q: usize = 0;
        while q < bits.len()
            invariant
                0 <= q <= bits@.len(),
                bits@.len() == bit_list(self.mask.0, 0).len(),
                forall|t: int| 0 <= t < bits@.len() ==> bits@[t] as int == #[trigger] bit_list(self.mask.0, 0)[t],
                forall|t: int| 0 <= t < bit_list(self.mask.0, 0).len() ==> 0 <= #[trigger] bit_list(self.mask.0, 0)[t] < 16,
                f@.len() == q + 1,
                f@[0] == 128,
                forall|t: int| 0 <= t < q ==> #[trigger] f@[t + 1] as int == digits[t],
                digits == bit_list(self.mask.0, 0).map_values(|i: int| i + x % 10),
                x <= 150,
            decreases bits@.len() - q,
        {
            assert(bit_list(self.mask.0, 0)[q as int] < 16);
            assert(bits@[q as int] < 16);
            f.push(bits[q] + x % 10);
            q = q + 1;
        }
        f.push(128);
        assert(f@.len() == sq.len());
        assert forall|t: int| 0 <= t < sq.len() implies #[trigger] sq[t] == f@[t] as int by {
            if 0 < t < sq.len() - 1 {
                assert(sq[t] == digits[t - 1]);
                assert(f@[(t - 1) + 1] as int == digits[t - 1]);
            }
        }
        let ghost start = r@;
        let n = f.len();
        let mut k: usize = 1;
        while k < n - 1
            invariant
                1 <= k <= n - 1,
                n >= 2,
                n == f@.len(),
                n == sq.len(),
                forall|t: int| 0 <= t < sq.len() ==> #[trigger] sq[t] == f@[t] as int,
                start + display_pieces(sq, 1) == r@ + display_pieces(sq, k as int),
            decreases n - k,
        {
            let w = f[k - 1];
            let xv = f[k];
            let y = f[k + 1];
            assert(sq[k - 1] == w as int && sq[k as int] == xv as int && sq[k + 1] == y as int);
            push_display_piece(&mut r, w, xv, y);
            assert(display_pieces(sq, k as int) == display_piece(w as int, xv as int, y as int)
                + display_pieces(sq, k + 1));
            k = k + 1;
        }
        assert(display_pieces(sq, k as int) =~= Seq::<char>::empty());
        assert(r@ =~= start + display_pieces(sq, 1));
        r
    }
}

/// A score constant is determined by its value.
pub proof fn lemma_constant_value_injective(a: ScoreConstant, b: ScoreConstant)
    requires
        a.value() == b.value(),
    ensures
        a == b,
{
}

/// A candidate mask is determined by its bits.
pub proof fn lemma_mask_bits_injective(a: CandidateBitmask, b: CandidateBitmask)
    requires
        a.bits_value() == b.bits_value(),
    ensures
        a == b,
{
}

/// No candidate is left exactly when the list of candidates is empty.
pub proof fn lemma_candidates_empty(l: InternalScoreLevel)
    ensures
        (l.candidate_list().len() == 0) <==> (forall|c: int| !#[trigger] l.candidate_set().contains(c)),
{
    lemma_bit_list(l.mask_value(), 0);
    let bl = bit_list(l.mask_value(), 0);
    if l.candidate_list().len() != 0 {
        let x = bl[0];
        assert(bl.contains(x));
        assert(l.candidate_set().contains(l.offset_value() + x));
    }
    if exists|c: int| l.candidate_set().contains(c) {
        let c = choose|c: int| l.candidate_set().contains(c);
        assert(bl.contains(c - l.offset_value()));
    }
}

/// The product behind a single-song rating stays within 150 x 100.5% x 22.4.
pub proof fn lemma_rating_precise_bound(c: u8, a: u32)
    requires
        c <= 150,
    ensures
        0 <= rating_precise_spec(c, a, rank_coef_spec(a)) <= 150 * 100_5000 * 224,
{
    let k = rank_coef_spec(a);
    let cl: int = if a <= 100_5000 { a as int } else { 100_5000 };
    assert(k <= 224);
    assert(c * cl * k <= 150 * 100_5000 * 224) by (nonlinear_arith)
        requires
            c <= 150,
            0 <= cl <= 100_5000,
            k <= 224,
    ;
    assert(0 <= c * cl * k) by (nonlinear_arith)
        requires
            0 <= cl,
            0 <= k,
    ;
}

/// Every value from 1.0 to 15.0 is a score constant.
/// Score constants are equal exactly when their values are.
pub proof fn lemma_constant_eq(a: ScoreConstant, b: ScoreConstant)
    ensures
        (a == b) <==> (a.value() == b.value()),
{
}

pub proof fn lemma_constant_exists(v: int)
    requires
        10 <= v <= 150,
    ensures
        exists|c: ScoreConstant| c.value() == v,
{
    let c = ScoreConstant(v as u8);
    assert(c.value() == v);
}

} // verus!
