use vstd::prelude::*;

use crate::maimai::parser::img_src::{img_src_parts, opt_view, split_img_src, ImgSrcError};
use crate::maimai::parser::play_record::FieldError;
use crate::maimai::schema::latest::{naive_seconds_of, parse_naive_seconds, UserName};
use crate::text::{
    dec, dec_padded, digit_char, is_digit, is_digit_char, push_char, push_decimal, push_decimal_padded,
    str_eq,
};

verus! {

/// The sum of the achievements of three songs, in units of 0.0001%: at most
/// 303.0000%.
#[derive(Clone, Copy, PartialEq, Eq, Structural, PartialOrd, Ord, Debug)]
pub struct AchievementSum(u32);

/// The largest sum of three achievements.
pub const MAX_ACHIEVEMENT_SUM: u32 = 303_0000;

impl AchievementSum {
    pub closed spec fn value(self) -> u32 {
        self.0
    }

    /// Accepts every sum up to 303.0000%; a larger one comes back.
    pub fn try_from_u32(v: u32) -> (r: Result<AchievementSum, u32>)
        ensures
            v <= MAX_ACHIEVEMENT_SUM ==> (r matches Ok(x) && x.value() == v),
            v > MAX_ACHIEVEMENT_SUM ==> r == Err::<AchievementSum, u32>(v),
    {
        if v <= MAX_ACHIEVEMENT_SUM {
            Ok(AchievementSum(v))
        } else {
            Err(v)
        }
    }

    pub fn get(&self) -> (r: u32)
        ensures
            r == self.value(),
    {
        self.0
    }

    /// The sum as shown, e.g. "300.1234%".
    pub fn to_string(&self) -> (r: String)
        ensures
            r@ == dec((self.value() / 10000) as nat) + seq!['.'] + dec_padded(
                (self.value() % 10000) as nat,
                4,
            ) + seq!['%'],
    {
        let mut r = String::new();
        push_decimal(&mut r, (self.0 / 10000) as u64);
        push_char(&mut r, '.');
        push_decimal_padded(&mut r, (self.0 % 10000) as u64, 4);
        push_char(&mut r, '%');
        r
    }
}

/// A release suffix of the ranking images: `1`, any character, two digits.
pub open spec fn ranking_release(ver: Option<Seq<char>>) -> bool {
    match ver {
        None => true,
        Some(v) => v.len() == 4 && v[0] == '1' && is_digit(v[2]) && is_digit(v[3]),
    }
}

/// The digit that a ranking image shows (the top three places have images
/// of their own), from the parts of its address.
pub open spec fn rank_digit_of_img(intl: bool, path: Seq<char>, ver: Option<Seq<char>>) -> Option<u32> {
    if intl || !ranking_release(ver) {
        None
    } else if path == "ranking/rank_first"@ {
        Some(1)
    } else if path == "ranking/rank_second"@ {
        Some(2)
    } else if path == "ranking/rank_third"@ {
        Some(3)
    } else if path == "ranking/rank_num_0"@ {
        Some(0)
    } else if path == "ranking/rank_num_1"@ {
        Some(1)
    } else if path == "ranking/rank_num_2"@ {
        Some(2)
    } else if path == "ranking/rank_num_3"@ {
        Some(3)
    } else if path == "ranking/rank_num_4"@ {
        Some(4)
    } else if path == "ranking/rank_num_5"@ {
        Some(5)
    } else if path == "ranking/rank_num_6"@ {
        Some(6)
    } else if path == "ranking/rank_num_7"@ {
        Some(7)
    } else if path == "ranking/rank_num_8"@ {
        Some(8)
    } else if path == "ranking/rank_num_9"@ {
        Some(9)
    } else {
        None
    }
}

/// The ranking images name their digits: `rank_num_k` is the digit k, and
/// the first three places have their own images for 1, 2 and 3.
pub proof fn lemma_rank_digit_names(ver: Option<Seq<char>>, k: int)
    requires
        ranking_release(ver),
        0 <= k < 10,
    ensures
        rank_digit_of_img(false, seq!['r', 'a', 'n', 'k', 'i', 'n', 'g', '/', 'r', 'a', 'n', 'k', '_', 'f', 'i', 'r', 's', 't'], ver) == Some(1u32),
        rank_digit_of_img(false, seq!['r', 'a', 'n', 'k', 'i', 'n', 'g', '/', 'r', 'a', 'n', 'k', '_', 's', 'e', 'c', 'o', 'n', 'd'], ver) == Some(2u32),
        rank_digit_of_img(false, seq!['r', 'a', 'n', 'k', 'i', 'n', 'g', '/', 'r', 'a', 'n', 'k', '_', 't', 'h', 'i', 'r', 'd'], ver) == Some(3u32),
        rank_digit_of_img(false, seq!['r', 'a', 'n', 'k', 'i', 'n', 'g', '/', 'r', 'a', 'n', 'k', '_', 'n', 'u', 'm', '_'] + seq![digit_char(k)], ver) == Some(k as u32),
{
    reveal_strlit("ranking/rank_first");
    assert("ranking/rank_first"@ =~= seq!['r', 'a', 'n', 'k', 'i', 'n', 'g', '/', 'r', 'a', 'n', 'k', '_', 'f', 'i', 'r', 's', 't']);
    reveal_strlit("ranking/rank_second");
    assert("ranking/rank_second"@ =~= seq!['r', 'a', 'n', 'k', 'i', 'n', 'g', '/', 'r', 'a', 'n', 'k', '_', 's', 'e', 'c', 'o', 'n', 'd']);
    reveal_strlit("ranking/rank_third");
    assert("ranking/rank_third"@ =~= seq!['r', 'a', 'n', 'k', 'i', 'n', 'g', '/', 'r', 'a', 'n', 'k', '_', 't', 'h', 'i', 'r', 'd']);
    reveal_strlit("ranking/rank_num_0");
    assert("ranking/rank_num_0"@ =~= seq!['r', 'a', 'n', 'k', 'i', 'n', 'g', '/', 'r', 'a', 'n', 'k', '_', 'n', 'u', 'm', '_', '0']);
    reveal_strlit("ranking/rank_num_1");
    assert("ranking/rank_num_1"@ =~= seq!['r', 'a', 'n', 'k', 'i', 'n', 'g', '/', 'r', 'a', 'n', 'k', '_', 'n', 'u', 'm', '_', '1']);
    reveal_strlit("ranking/rank_num_2");
    assert("ranking/rank_num_2"@ =~= seq!['r', 'a', 'n', 'k', 'i', 'n', 'g', '/', 'r', 'a', 'n', 'k', '_', 'n', 'u', 'm', '_', '2']);
    reveal_strlit("ranking/rank_num_3");
    assert("ranking/rank_num_3"@ =~= seq!['r', 'a', 'n', 'k', 'i', 'n', 'g', '/', 'r', 'a', 'n', 'k', '_', 'n', 'u', 'm', '_', '3']);
    reveal_strlit("ranking/rank_num_4");
    assert("ranking/rank_num_4"@ =~= seq!['r', 'a', 'n', 'k', 'i', 'n', 'g', '/', 'r', 'a', 'n', 'k', '_', 'n', 'u', 'm', '_', '4']);
    reveal_strlit("ranking/rank_num_5");
    assert("ranking/rank_num_5"@ =~= seq!['r', 'a', 'n', 'k', 'i', 'n', 'g', '/', 'r', 'a', 'n', 'k', '_', 'n', 'u', 'm', '_', '5']);
    reveal_strlit("ranking/rank_num_6");
    assert("ranking/rank_num_6"@ =~= seq!['r', 'a', 'n', 'k', 'i', 'n', 'g', '/', 'r', 'a', 'n', 'k', '_', 'n', 'u', 'm', '_', '6']);
    reveal_strlit("ranking/rank_num_7");
    assert("ranking/rank_num_7"@ =~= seq!['r', 'a', 'n', 'k', 'i', 'n', 'g', '/', 'r', 'a', 'n', 'k', '_', 'n', 'u', 'm', '_', '7']);
    reveal_strlit("ranking/rank_num_8");
    assert("ranking/rank_num_8"@ =~= seq!['r', 'a', 'n', 'k', 'i', 'n', 'g', '/', 'r', 'a', 'n', 'k', '_', 'n', 'u', 'm', '_', '8']);
    reveal_strlit("ranking/rank_num_9");
    assert("ranking/rank_num_9"@ =~= seq!['r', 'a', 'n', 'k', 'i', 'n', 'g', '/', 'r', 'a', 'n', 'k', '_', 'n', 'u', 'm', '_', '9']);
    assert("ranking/rank_second"@.len() != "ranking/rank_first"@.len());
    assert("ranking/rank_third"@[13] != "ranking/rank_first"@[13]);
    assert("ranking/rank_third"@.len() != "ranking/rank_second"@.len());
    assert("ranking/rank_num_0"@[13] != "ranking/rank_first"@[13]);
    assert("ranking/rank_num_0"@.len() != "ranking/rank_second"@.len());
    assert("ranking/rank_num_0"@[13] != "ranking/rank_third"@[13]);
    assert("ranking/rank_num_1"@[13] != "ranking/rank_first"@[13]);
    assert("ranking/rank_num_1"@.len() != "ranking/rank_second"@.len());
    assert("ranking/rank_num_1"@[13] != "ranking/rank_third"@[13]);
    assert("ranking/rank_num_1"@[17] != "ranking/rank_num_0"@[17]);
    assert("ranking/rank_num_2"@[13] != "ranking/rank_first"@[13]);
    assert("ranking/rank_num_2"@.len() != "ranking/rank_second"@.len());
    assert("ranking/rank_num_2"@[13] != "ranking/rank_third"@[13]);
    assert("ranking/rank_num_2"@[17] != "ranking/rank_num_0"@[17]);
    assert("ranking/rank_num_2"@[17] != "ranking/rank_num_1"@[17]);
    assert("ranking/rank_num_3"@[13] != "ranking/rank_first"@[13]);
    assert("ranking/rank_num_3"@.len() != "ranking/rank_second"@.len());
    assert("ranking/rank_num_3"@[13] != "ranking/rank_third"@[13]);
    assert("ranking/rank_num_3"@[17] != "ranking/rank_num_0"@[17]);
    assert("ranking/rank_num_3"@[17] != "ranking/rank_num_1"@[17]);
    assert("ranking/rank_num_3"@[17] != "ranking/rank_num_2"@[17]);
    assert("ranking/rank_num_4"@[13] != "ranking/rank_first"@[13]);
    assert("ranking/rank_num_4"@.len() != "ranking/rank_second"@.len());
    assert("ranking/rank_num_4"@[13] != "ranking/rank_third"@[13]);
    assert("ranking/rank_num_4"@[17] != "ranking/rank_num_0"@[17]);
    assert("ranking/rank_num_4"@[17] != "ranking/rank_num_1"@[17]);
    assert("ranking/rank_num_4"@[17] != "ranking/rank_num_2"@[17]);
    assert("ranking/rank_num_4"@[17] != "ranking/rank_num_3"@[17]);
    assert("ranking/rank_num_5"@[13] != "ranking/rank_first"@[13]);
    assert("ranking/rank_num_5"@.len() != "ranking/rank_second"@.len());
    assert("ranking/rank_num_5"@[13] != "ranking/rank_third"@[13]);
    assert("ranking/rank_num_5"@[17] != "ranking/rank_num_0"@[17]);
    assert("ranking/rank_num_5"@[17] != "ranking/rank_num_1"@[17]);
    assert("ranking/rank_num_5"@[17] != "ranking/rank_num_2"@[17]);
    assert("ranking/rank_num_5"@[17] != "ranking/rank_num_3"@[17]);
    assert("ranking/rank_num_5"@[17] != "ranking/rank_num_4"@[17]);
    assert("ranking/rank_num_6"@[13] != "ranking/rank_first"@[13]);
    assert("ranking/rank_num_6"@.len() != "ranking/rank_second"@.len());
    assert("ranking/rank_num_6"@[13] != "ranking/rank_third"@[13]);
    assert("ranking/rank_num_6"@[17] != "ranking/rank_num_0"@[17]);
    assert("ranking/rank_num_6"@[17] != "ranking/rank_num_1"@[17]);
    assert("ranking/rank_num_6"@[17] != "ranking/rank_num_2"@[17]);
    assert("ranking/rank_num_6"@[17] != "ranking/rank_num_3"@[17]);
    assert("ranking/rank_num_6"@[17] != "ranking/rank_num_4"@[17]);
    assert("ranking/rank_num_6"@[17] != "ranking/rank_num_5"@[17]);
    assert("ranking/rank_num_7"@[13] != "ranking/rank_first"@[13]);
    assert("ranking/rank_num_7"@.len() != "ranking/rank_second"@.len());
    assert("ranking/rank_num_7"@[13] != "ranking/rank_third"@[13]);
    assert("ranking/rank_num_7"@[17] != "ranking/rank_num_0"@[17]);
    assert("ranking/rank_num_7"@[17] != "ranking/rank_num_1"@[17]);
    assert("ranking/rank_num_7"@[17] != "ranking/rank_num_2"@[17]);
    assert("ranking/rank_num_7"@[17] != "ranking/rank_num_3"@[17]);
    assert("ranking/rank_num_7"@[17] != "ranking/rank_num_4"@[17]);
    assert("ranking/rank_num_7"@[17] != "ranking/rank_num_5"@[17]);
    assert("ranking/rank_num_7"@[17] != "ranking/rank_num_6"@[17]);
    assert("ranking/rank_num_8"@[13] != "ranking/rank_first"@[13]);
    assert("ranking/rank_num_8"@.len() != "ranking/rank_second"@.len());
    assert("ranking/rank_num_8"@[13] != "ranking/rank_third"@[13]);
    assert("ranking/rank_num_8"@[17] != "ranking/rank_num_0"@[17]);
    assert("ranking/rank_num_8"@[17] != "ranking/rank_num_1"@[17]);
    assert("ranking/rank_num_8"@[17] != "ranking/rank_num_2"@[17]);
    assert("ranking/rank_num_8"@[17] != "ranking/rank_num_3"@[17]);
    assert("ranking/rank_num_8"@[17] != "ranking/rank_num_4"@[17]);
    assert("ranking/rank_num_8"@[17] != "ranking/rank_num_5"@[17]);
    assert("ranking/rank_num_8"@[17] != "ranking/rank_num_6"@[17]);
    assert("ranking/rank_num_8"@[17] != "ranking/rank_num_7"@[17]);
    assert("ranking/rank_num_9"@[13] != "ranking/rank_first"@[13]);
    assert("ranking/rank_num_9"@.len() != "ranking/rank_second"@.len());
    assert("ranking/rank_num_9"@[13] != "ranking/rank_third"@[13]);
    assert("ranking/rank_num_9"@[17] != "ranking/rank_num_0"@[17]);
    assert("ranking/rank_num_9"@[17] != "ranking/rank_num_1"@[17]);
    assert("ranking/rank_num_9"@[17] != "ranking/rank_num_2"@[17]);
    assert("ranking/rank_num_9"@[17] != "ranking/rank_num_3"@[17]);
    assert("ranking/rank_num_9"@[17] != "ranking/rank_num_4"@[17]);
    assert("ranking/rank_num_9"@[17] != "ranking/rank_num_5"@[17]);
    assert("ranking/rank_num_9"@[17] != "ranking/rank_num_6"@[17]);
    assert("ranking/rank_num_9"@[17] != "ranking/rank_num_7"@[17]);
    assert("ranking/rank_num_9"@[17] != "ranking/rank_num_8"@[17]);
    let p = seq!['r', 'a', 'n', 'k', 'i', 'n', 'g', '/', 'r', 'a', 'n', 'k', '_', 'n', 'u', 'm', '_'] + seq![digit_char(k)];
    if k == 0 {
        assert(p =~= "ranking/rank_num_0"@);
    } else if k == 1 {
        assert(p =~= "ranking/rank_num_1"@);
    } else if k == 2 {
        assert(p =~= "ranking/rank_num_2"@);
    } else if k == 3 {
        assert(p =~= "ranking/rank_num_3"@);
    } else if k == 4 {
        assert(p =~= "ranking/rank_num_4"@);
    } else if k == 5 {
        assert(p =~= "ranking/rank_num_5"@);
    } else if k == 6 {
        assert(p =~= "ranking/rank_num_6"@);
    } else if k == 7 {
        assert(p =~= "ranking/rank_num_7"@);
    } else if k == 8 {
        assert(p =~= "ranking/rank_num_8"@);
    } else if k == 9 {
        assert(p =~= "ranking/rank_num_9"@);
    }
}

/// The digit that a ranking image shows, from its address.
pub open spec fn rank_digit_of_src(s: Seq<char>) -> Option<u32> {
    match img_src_parts(s) {
        Some(p) => rank_digit_of_img(p.0, p.1, p.2),
        None => None,
    }
}

fn is_ranking_release(ver: Option<&str>) -> (r: bool)
    ensures
        r == ranking_release(opt_view(ver)),
{
    match ver {
        None => true,
        Some(v) => v.unicode_len() == 4 && v.get_char(0) == '1' && is_digit_char(v.get_char(2))
            && is_digit_char(v.get_char(3)),
    }
}

fn rank_digit_img(intl: bool, path: &str, ver: Option<&str>) -> (r: Option<u32>)
    ensures
        r == rank_digit_of_img(intl, path@, opt_view(ver)),
{
    if intl || !is_ranking_release(ver) {
        None
    } else if str_eq(path, "ranking/rank_first") {
        Some(1)
    } else if str_eq(path, "ranking/rank_second") {
        Some(2)
    } else if str_eq(path, "ranking/rank_third") {
        Some(3)
    } else if str_eq(path, "ranking/rank_num_0") {
        Some(0)
    } else if str_eq(path, "ranking/rank_num_1") {
        Some(1)
    } else if str_eq(path, "ranking/rank_num_2") {
        Some(2)
    } else if str_eq(path, "ranking/rank_num_3") {
        Some(3)
    } else if str_eq(path, "ranking/rank_num_4") {
        Some(4)
    } else if str_eq(path, "ranking/rank_num_5") {
        Some(5)
    } else if str_eq(path, "ranking/rank_num_6") {
        Some(6)
    } else if str_eq(path, "ranking/rank_num_7") {
        Some(7)
    } else if str_eq(path, "ranking/rank_num_8") {
        Some(8)
    } else if str_eq(path, "ranking/rank_num_9") {
        Some(9)
    } else {
        None
    }
}

/// Reads the digit that a ranking image shows from its `src` attribute.
pub fn parse_rank_digit(src: Option<&str>) -> (r: Result<u32, ImgSrcError>)
    ensures
        src is None ==> r == Err::<u32, ImgSrcError>(ImgSrcError::NoSrc),
        src matches Some(s) ==> match rank_digit_of_src(s@) {
            Some(d) => r == Ok::<u32, ImgSrcError>(d),
            None => r matches Err(ImgSrcError::UnknownSrc(u)) && u@ == s@,
        },
{
    let s = match src {
        Some(s) => s,
        None => {
            return Err(ImgSrcError::NoSrc);
        },
    };
    let found = match split_img_src(s) {
        Some((intl, path, ver)) => rank_digit_img(intl, path, ver),
        None => None,
    };
    match found {
        Some(d) => Ok(d),
        None => Err(ImgSrcError::UnknownSrc(s.to_owned())),
    }
}

/// The rank that digit images in page order show: the page puts the least
/// significant digit first.
pub open spec fn rank_of_digits(d: Seq<u32>) -> int
    decreases d.len(),
{
    if d.len() == 0 {
        0
    } else {
        rank_of_digits(d.drop_first()) * 10 + d[0]
    }
}

proof fn lemma_rank_of_digits_suffix(d: Seq<u32>, i: int)
    requires
        0 <= i <= d.len(),
    ensures
        0 <= rank_of_digits(d.skip(i)) <= rank_of_digits(d),
    decreases i,
{
    lemma_rank_of_digits_nonneg(d.skip(i));
    if i > 0 {
        lemma_rank_of_digits_suffix(d, i - 1);
        let p = d.skip(i - 1);
        assert(p.drop_first() =~= d.skip(i));
        assert(rank_of_digits(p) == rank_of_digits(p.drop_first()) * 10 + p[0]);
    } else {
        assert(d.skip(i) =~= d);
    }
}

proof fn lemma_rank_of_digits_nonneg(d: Seq<u32>)
    ensures
        rank_of_digits(d) >= 0,
    decreases d.len(),
{
    if d.len() > 0 {
        lemma_rank_of_digits_nonneg(d.drop_first());
    }
}

/// The rank that the digit images show.
pub fn rank_from_digits(digits: &[u32]) -> (r: u32)
    requires
        rank_of_digits(digits@) <= u32::MAX,
    ensures
        r == rank_of_digits(digits@),
{
    let n = digits.len();
    let mut i = n;
    let mut acc: u32 = 0;
    assert(digits@.skip(n as int) =~= Seq::<u32>::empty());
    while i > 0
        invariant
            i <= n,
            n == digits@.len(),
            acc == rank_of_digits(digits@.skip(i as int)),
            rank_of_digits(digits@) <= u32::MAX,
        decreases i,
    {
        proof {
            lemma_rank_of_digits_suffix(digits@, i - 1);
            assert(digits@.skip(i - 1).drop_first() =~= digits@.skip(i as int));
        }
        acc = acc * 10 + digits[i - 1];
        i = i - 1;
    }
    assert(digits@.skip(0) =~= digits@);
    acc
}

/// The place, player, play time, achievement sum and DX score of a ranking
/// entry; times are seconds since 1970-01-01 00:00 of the time shown.
#[derive(Clone, Debug)]
pub struct Entry {
    pub rank: u32,
    pub player_name: UserName,
    pub play_time: i64,
    pub achievement: AchievementSum,
    pub deluxscore: u32,
}

/// A ranking as of a time.
#[derive(Clone, Debug)]
pub struct Ranking {
    pub as_of: i64,
    pub entries: Vec<Entry>,
}

/// The entries are ranked 1, 2, 3, ... in page order.
pub open spec fn ranks_in_order(entries: Seq<Entry>) -> bool {
    forall|i: int| 0 <= i < entries.len() ==> #[trigger] entries[i].rank == i + 1
}

/// The first entry whose rank is not its place in the page, if any.
pub fn first_rank_mismatch(entries: &Vec<Entry>) -> (r: Option<usize>)
    ensures
        match r {
            Some(i) => i < entries@.len() && entries@[i as int].rank != i + 1 && forall|j: int|
                0 <= j < i ==> #[trigger] entries@[j].rank == j + 1,
            None => ranks_in_order(entries@),
        },
{
    let mut i: usize = 0;
    while i < entries.len()
        invariant
            0 <= i <= entries@.len(),
            forall|j: int| 0 <= j < i ==> #[trigger] entries@[j].rank == j + 1,
        decreases entries@.len() - i,
    {
        if i >= 0xffff_ffff || entries[i].rank != (i + 1) as u32 {
            return Some(i);
        }
        i = i + 1;
    }
    None
}

/// The date and time of a ranking update as the page shows it:
/// `dddd/dd/dd dd:dd 更新`.
pub open spec fn as_of_shape(s: Seq<char>) -> bool {
    &&& s.len() == 19
    &&& forall|i: int|
        0 <= i < 16 ==> #[trigger] s[i] == if i == 4 || i == 7 {
            '/'
        } else if i == 10 {
            ' '
        } else if i == 13 {
            ':'
        } else {
            s[i]
        }
    &&& forall|i: int|
        0 <= i < 16 && i != 4 && i != 7 && i != 10 && i != 13 ==> is_digit(#[trigger] s[i])
    &&& s[16] == ' '
    &&& s[17] == '更'
    &&& s[18] == '新'
}

/// The update time of a ranking page: the date and time read with the
/// format `%Y/%m/%d %H:%M`.
pub open spec fn as_of_seconds(s: Seq<char>) -> Option<i64> {
    if as_of_shape(s) {
        naive_seconds_of(s.take(16), "%Y/%m/%d %H:%M"@)
    } else {
        None
    }
}

/// Reads the update time of a ranking page, e.g. `2024/01/02 03:04 更新`.
pub fn parse_as_of(text: &str) -> (r: Result<i64, FieldError>)
    ensures
        match as_of_seconds(text@) {
            Some(t) => r == Ok::<i64, FieldError>(t),
            None => r == Err::<i64, FieldError>(FieldError::Format),
        },
{
    if text.unicode_len() != 19 {
        return Err(FieldError::Format);
    }
    let mut i: usize = 0;
    while i < 16
        invariant
            0 <= i <= 16,
            text@.len() == 19,
            forall|j: int|
                0 <= j < i ==> #[trigger] text@[j] == if j == 4 || j == 7 {
                    '/'
                } else if j == 10 {
                    ' '
                } else if j == 13 {
                    ':'
                } else {
                    text@[j]
                },
            forall|j: int|
                0 <= j < i && j != 4 && j != 7 && j != 10 && j != 13 ==> is_digit(
                    #[trigger] text@[j],
                ),
        decreases 16 - i,
    {
        let c = text.get_char(i);
        let ok = if i == 4 || i == 7 {
            c == '/'
        } else if i == 10 {
            c == ' '
        } else if i == 13 {
            c == ':'
        } else {
            is_digit_char(c)
        };
        if !ok {
            return Err(FieldError::Format);
        }
        i = i + 1;
    }
    if text.get_char(16) != ' ' || text.get_char(17) != '更' || text.get_char(18) != '新' {
        return Err(FieldError::Format);
    }
    match parse_naive_seconds(text.substring_char(0, 16), "%Y/%m/%d %H:%M") {
        Some(t) => Ok(t),
        None => Err(FieldError::Format),
    }
}

} // verus!
