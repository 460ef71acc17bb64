use vstd::prelude::*;

use crate::maimai::parser::img_src::{img_src_parts, opt_view, split_img_src, ImgSrcError};
use crate::maimai::parser::release::{
    early_playlog_release,
    is_early_playlog_release,
    is_plain_release,
    is_playlog_release,
    is_rating_base_release,
    is_rating_platinum_release,
    is_sync_playlog_release,
    plain_release,
    playlog_release,
    rating_base_release,
    rating_platinum_release,
    sync_playlog_release,
};
use crate::maimai::schema::latest::{
    utage_kind_kanji,
    naive_seconds_of, parse_naive_seconds, AchievementRank, AchievementValue, BattleKind,
    BattleWinOrLose, DeluxscoreRank, FullComboKind, FullSyncKind, MatchingRank, PlayTime,
    RatingBorderColor, RatingDeltaSign, ScoreDifficulty, ScoreGeneration, TrackIndex, UtageKind,
    UtageKindRaw, ValueWithMax, MAX_ACHIEVEMENT,
};
use crate::text::{
    all_digits, digits_value, is_all_digits, is_digit, is_digit_char, lemma_digits_value_lt,
    parse_unsigned, parse_unsigned_max, pow10, read_digits, remove_commas, str_eq, trim, trim_spec,
    without_commas,
};

verus! {

/// The chart generation (standard or DX) that an image marks, from the parts of its address.
pub open spec fn score_generation_of_img(intl: bool, path: Seq<char>, ver: Option<Seq<char>>) -> Option<ScoreGeneration> {
    if path == "music_dx"@ && plain_release(intl, ver) {
        Some(ScoreGeneration::Deluxe)
    } else if path == "music_standard"@ && plain_release(intl, ver) {
        Some(ScoreGeneration::Standard)
    } else {
        None
    }
}

/// The generation an image shows is the generation its file names: each known image, in a
/// release it is accepted in, reads as its own value, and two images that
/// read as the same value are the same image.
pub proof fn lemma_score_generation_of_img_names(intl: bool, ver: Option<Seq<char>>)
    ensures
        plain_release(intl, ver) ==> score_generation_of_img(intl, "music_dx"@, ver) == Some(ScoreGeneration::Deluxe),
        plain_release(intl, ver) ==> score_generation_of_img(intl, "music_standard"@, ver) == Some(ScoreGeneration::Standard),
        forall|p: Seq<char>, q: Seq<char>|
            #[trigger] score_generation_of_img(intl, p, ver) is Some && score_generation_of_img(intl, p, ver) == #[trigger] score_generation_of_img(intl, q, ver) ==> p == q,
{
    reveal_strlit("music_dx");
    reveal_strlit("music_standard");
    assert("music_standard"@.len() != "music_dx"@.len());
}

/// The chart generation (standard or DX) that an image marks, from its address.
pub open spec fn score_generation_of_src(s: Seq<char>) -> Option<ScoreGeneration> {
    match img_src_parts(s) {
        Some(p) => score_generation_of_img(p.0, p.1, p.2),
        None => None,
    }
}

fn score_generation_img(intl: bool, path: &str, ver: Option<&str>) -> (r: Option<ScoreGeneration>)
    ensures
        r == score_generation_of_img(intl, path@, opt_view(ver)),
{
    let plain_release = is_plain_release(intl, ver);
    if plain_release && str_eq(path, "music_dx") {
        Some(ScoreGeneration::Deluxe)
    } else if plain_release && str_eq(path, "music_standard") {
        Some(ScoreGeneration::Standard)
    } else {
        None
    }
}

/// Reads the chart generation (standard or DX) that an image marks from the image's `src` attribute.
pub fn parse_score_generation_img(src: Option<&str>) -> (r: Result<ScoreGeneration, ImgSrcError>)
    ensures
        src is None ==> r == Err::<ScoreGeneration, ImgSrcError>(ImgSrcError::NoSrc),
        src matches Some(s) ==> match score_generation_of_src(s@) {
            Some(v) => r == Ok::<ScoreGeneration, ImgSrcError>(v),
            None => r matches Err(ImgSrcError::UnknownSrc(u)) && u@ == s@,
        },
{
    let s = match src {
        Some(s) => s,
        None => {
            return Err(ImgSrcError::NoSrc);
        },
    };
    let found = match split_img_src(s) {
        Some((intl, path, ver)) => score_generation_img(intl, path, ver),
        None => None,
    };
    match found {
        Some(v) => Ok(v),
        None => Err(ImgSrcError::UnknownSrc(s.to_owned())),
    }
}

/// The difficulty that a difficulty image marks, from the parts of its address.
pub open spec fn playlog_diff_of_img(intl: bool, path: Seq<char>, ver: Option<Seq<char>>) -> Option<ScoreDifficulty> {
    if path == "diff_basic"@ && plain_release(intl, ver) {
        Some(ScoreDifficulty::Basic)
    } else if path == "diff_advanced"@ && plain_release(intl, ver) {
        Some(ScoreDifficulty::Advanced)
    } else if path == "diff_expert"@ && plain_release(intl, ver) {
        Some(ScoreDifficulty::Expert)
    } else if path == "diff_master"@ && plain_release(intl, ver) {
        Some(ScoreDifficulty::Master)
    } else if path == "diff_remaster"@ && plain_release(intl, ver) {
        Some(ScoreDifficulty::ReMaster)
    } else if path == "diff_utage"@ && plain_release(intl, ver) {
        Some(ScoreDifficulty::Utage)
    } else {
        None
    }
}

/// The difficulty an image shows is the difficulty its file names: each known image, in a
/// release it is accepted in, reads as its own value, and two images that
/// read as the same value are the same image.
pub proof fn lemma_playlog_diff_of_img_names(intl: bool, ver: Option<Seq<char>>)
    ensures
        plain_release(intl, ver) ==> playlog_diff_of_img(intl, "diff_basic"@, ver) == Some(ScoreDifficulty::Basic),
        plain_release(intl, ver) ==> playlog_diff_of_img(intl, "diff_advanced"@, ver) == Some(ScoreDifficulty::Advanced),
        plain_release(intl, ver) ==> playlog_diff_of_img(intl, "diff_expert"@, ver) == Some(ScoreDifficulty::Expert),
        plain_release(intl, ver) ==> playlog_diff_of_img(intl, "diff_master"@, ver) == Some(ScoreDifficulty::Master),
        plain_release(intl, ver) ==> playlog_diff_of_img(intl, "diff_remaster"@, ver) == Some(ScoreDifficulty::ReMaster),
        plain_release(intl, ver) ==> playlog_diff_of_img(intl, "diff_utage"@, ver) == Some(ScoreDifficulty::Utage),
        forall|p: Seq<char>, q: Seq<char>|
            #[trigger] playlog_diff_of_img(intl, p, ver) is Some && playlog_diff_of_img(intl, p, ver) == #[trigger] playlog_diff_of_img(intl, q, ver) ==> p == q,
{
    reveal_strlit("diff_basic");
    reveal_strlit("diff_advanced");
    reveal_strlit("diff_expert");
    reveal_strlit("diff_master");
    reveal_strlit("diff_remaster");
    reveal_strlit("diff_utage");
    assert("diff_advanced"@.len() != "diff_basic"@.len());
    assert("diff_expert"@.len() != "diff_basic"@.len());
    assert("diff_expert"@.len() != "diff_advanced"@.len());
    assert("diff_master"@.len() != "diff_basic"@.len());
    assert("diff_master"@.len() != "diff_advanced"@.len());
    assert("diff_master"@[5] != "diff_expert"@[5]);
    assert("diff_remaster"@.len() != "diff_basic"@.len());
    assert("diff_remaster"@[5] != "diff_advanced"@[5]);
    assert("diff_remaster"@.len() != "diff_expert"@.len());
    assert("diff_remaster"@.len() != "diff_master"@.len());
    assert("diff_utage"@[5] != "diff_basic"@[5]);
    assert("diff_utage"@.len() != "diff_advanced"@.len());
    assert("diff_utage"@.len() != "diff_expert"@.len());
    assert("diff_utage"@.len() != "diff_master"@.len());
    assert("diff_utage"@.len() != "diff_remaster"@.len());
}

/// The difficulty that a difficulty image marks, from its address.
pub open spec fn playlog_diff_of_src(s: Seq<char>) -> Option<ScoreDifficulty> {
    match img_src_parts(s) {
        Some(p) => playlog_diff_of_img(p.0, p.1, p.2),
        None => None,
    }
}

fn playlog_diff_img(intl: bool, path: &str, ver: Option<&str>) -> (r: Option<ScoreDifficulty>)
    ensures
        r == playlog_diff_of_img(intl, path@, opt_view(ver)),
{
    let plain_release = is_plain_release(intl, ver);
    if plain_release && str_eq(path, "diff_basic") {
        Some(ScoreDifficulty::Basic)
    } else if plain_release && str_eq(path, "diff_advanced") {
        Some(ScoreDifficulty::Advanced)
    } else if plain_release && str_eq(path, "diff_expert") {
        Some(ScoreDifficulty::Expert)
    } else if plain_release && str_eq(path, "diff_master") {
        Some(ScoreDifficulty::Master)
    } else if plain_release && str_eq(path, "diff_remaster") {
        Some(ScoreDifficulty::ReMaster)
    } else if plain_release && str_eq(path, "diff_utage") {
        Some(ScoreDifficulty::Utage)
    } else {
        None
    }
}

/// Reads the difficulty that a difficulty image marks from the image's `src` attribute.
pub fn parse_playlog_diff(src: Option<&str>) -> (r: Result<ScoreDifficulty, ImgSrcError>)
    ensures
        src is None ==> r == Err::<ScoreDifficulty, ImgSrcError>(ImgSrcError::NoSrc),
        src matches Some(s) ==> match playlog_diff_of_src(s@) {
            Some(v) => r == Ok::<ScoreDifficulty, ImgSrcError>(v),
            None => r matches Err(ImgSrcError::UnknownSrc(u)) && u@ == s@,
        },
{
    let s = match src {
        Some(s) => s,
        None => {
            return Err(ImgSrcError::NoSrc);
        },
    };
    let found = match split_img_src(s) {
        Some((intl, path, ver)) => playlog_diff_img(intl, path, ver),
        None => None,
    };
    match found {
        Some(v) => Ok(v),
        None => Err(ImgSrcError::UnknownSrc(s.to_owned())),
    }
}

/// The achievement rank that a play-record rank image shows, from the parts of its address.
pub open spec fn achievement_rank_of_img(intl: bool, path: Seq<char>, ver: Option<Seq<char>>) -> Option<AchievementRank> {
    if path == "playlog/sssplus"@ && playlog_release(intl, ver) {
        Some(AchievementRank::SSSPlus)
    } else if path == "playlog/sss"@ && playlog_release(intl, ver) {
        Some(AchievementRank::SSS)
    } else if path == "playlog/ssplus"@ && playlog_release(intl, ver) {
        Some(AchievementRank::SSPlus)
    } else if path == "playlog/ss"@ && playlog_release(intl, ver) {
        Some(AchievementRank::SS)
    } else if path == "playlog/splus"@ && playlog_release(intl, ver) {
        Some(AchievementRank::SPlus)
    } else if path == "playlog/s"@ && playlog_release(intl, ver) {
        Some(AchievementRank::S)
    } else if path == "playlog/aaa"@ && playlog_release(intl, ver) {
        Some(AchievementRank::AAA)
    } else if path == "playlog/aa"@ && playlog_release(intl, ver) {
        Some(AchievementRank::AA)
    } else if path == "playlog/a"@ && playlog_release(intl, ver) {
        Some(AchievementRank::A)
    } else if path == "playlog/bbb"@ && playlog_release(intl, ver) {
        Some(AchievementRank::BBB)
    } else if path == "playlog/bb"@ && playlog_release(intl, ver) {
        Some(AchievementRank::BB)
    } else if path == "playlog/b"@ && playlog_release(intl, ver) {
        Some(AchievementRank::B)
    } else if path == "playlog/c"@ && playlog_release(intl, ver) {
        Some(AchievementRank::C)
    } else if path == "playlog/d"@ && playlog_release(intl, ver) {
        Some(AchievementRank::D)
    } else {
        None
    }
}

/// The rank an image shows is the rank its file names: each known image, in a
/// release it is accepted in, reads as its own value, and two images that
/// read as the same value are the same image.
pub proof fn lemma_achievement_rank_of_img_names(intl: bool, ver: Option<Seq<char>>)
    ensures
        playlog_release(intl, ver) ==> achievement_rank_of_img(intl, "playlog/sssplus"@, ver) == Some(AchievementRank::SSSPlus),
        playlog_release(intl, ver) ==> achievement_rank_of_img(intl, "playlog/sss"@, ver) == Some(AchievementRank::SSS),
        playlog_release(intl, ver) ==> achievement_rank_of_img(intl, "playlog/ssplus"@, ver) == Some(AchievementRank::SSPlus),
        playlog_release(intl, ver) ==> achievement_rank_of_img(intl, "playlog/ss"@, ver) == Some(AchievementRank::SS),
        playlog_release(intl, ver) ==> achievement_rank_of_img(intl, "playlog/splus"@, ver) == Some(AchievementRank::SPlus),
        playlog_release(intl, ver) ==> achievement_rank_of_img(intl, "playlog/s"@, ver) == Some(AchievementRank::S),
        playlog_release(intl, ver) ==> achievement_rank_of_img(intl, "playlog/aaa"@, ver) == Some(AchievementRank::AAA),
        playlog_release(intl, ver) ==> achievement_rank_of_img(intl, "playlog/aa"@, ver) == Some(AchievementRank::AA),
        playlog_release(intl, ver) ==> achievement_rank_of_img(intl, "playlog/a"@, ver) == Some(AchievementRank::A),
        playlog_release(intl, ver) ==> achievement_rank_of_img(intl, "playlog/bbb"@, ver) == Some(AchievementRank::BBB),
        playlog_release(intl, ver) ==> achievement_rank_of_img(intl, "playlog/bb"@, ver) == Some(AchievementRank::BB),
        playlog_release(intl, ver) ==> achievement_rank_of_img(intl, "playlog/b"@, ver) == Some(AchievementRank::B),
        playlog_release(intl, ver) ==> achievement_rank_of_img(intl, "playlog/c"@, ver) == Some(AchievementRank::C),
        playlog_release(intl, ver) ==> achievement_rank_of_img(intl, "playlog/d"@, ver) == Some(AchievementRank::D),
        forall|p: Seq<char>, q: Seq<char>|
            #[trigger] achievement_rank_of_img(intl, p, ver) is Some && achievement_rank_of_img(intl, p, ver) == #[trigger] achievement_rank_of_img(intl, q, ver) ==> p == q,
{
    reveal_strlit("playlog/sssplus");
    reveal_strlit("playlog/sss");
    reveal_strlit("playlog/ssplus");
    reveal_strlit("playlog/ss");
    reveal_strlit("playlog/splus");
    reveal_strlit("playlog/s");
    reveal_strlit("playlog/aaa");
    reveal_strlit("playlog/aa");
    reveal_strlit("playlog/a");
    reveal_strlit("playlog/bbb");
    reveal_strlit("playlog/bb");
    reveal_strlit("playlog/b");
    reveal_strlit("playlog/c");
    reveal_strlit("playlog/d");
    assert("playlog/sss"@.len() != "playlog/sssplus"@.len());
    assert("playlog/ssplus"@.len() != "playlog/sssplus"@.len());
    assert("playlog/ssplus"@.len() != "playlog/sss"@.len());
    assert("playlog/ss"@.len() != "playlog/sssplus"@.len());
    assert("playlog/ss"@.len() != "playlog/sss"@.len());
    assert("playlog/ss"@.len() != "playlog/ssplus"@.len());
    assert("playlog/splus"@.len() != "playlog/sssplus"@.len());
    assert("playlog/splus"@.len() != "playlog/sss"@.len());
    assert("playlog/splus"@.len() != "playlog/ssplus"@.len());
    assert("playlog/splus"@.len() != "playlog/ss"@.len());
    assert("playlog/s"@.len() != "playlog/sssplus"@.len());
    assert("playlog/s"@.len() != "playlog/sss"@.len());
    assert("playlog/s"@.len() != "playlog/ssplus"@.len());
    assert("playlog/s"@.len() != "playlog/ss"@.len());
    assert("playlog/s"@.len() != "playlog/splus"@.len());
    assert("playlog/aaa"@.len() != "playlog/sssplus"@.len());
    assert("playlog/aaa"@[8] != "playlog/sss"@[8]);
    assert("playlog/aaa"@.len() != "playlog/ssplus"@.len());
    assert("playlog/aaa"@.len() != "playlog/ss"@.len());
    assert("playlog/aaa"@.len() != "playlog/splus"@.len());
    assert("playlog/aaa"@.len() != "playlog/s"@.len());
    assert("playlog/aa"@.len() != "playlog/sssplus"@.len());
    assert("playlog/aa"@.len() != "playlog/sss"@.len());
    assert("playlog/aa"@.len() != "playlog/ssplus"@.len());
    assert("playlog/aa"@[8] != "playlog/ss"@[8]);
    assert("playlog/aa"@.len() != "playlog/splus"@.len());
    assert("playlog/aa"@.len() != "playlog/s"@.len());
    assert("playlog/aa"@.len() != "playlog/aaa"@.len());
    assert("playlog/a"@.len() != "playlog/sssplus"@.len());
    assert("playlog/a"@.len() != "playlog/sss"@.len());
    assert("playlog/a"@.len() != "playlog/ssplus"@.len());
    assert("playlog/a"@.len() != "playlog/ss"@.len());
    assert("playlog/a"@.len() != "playlog/splus"@.len());
    assert("playlog/a"@[8] != "playlog/s"@[8]);
    assert("playlog/a"@.len() != "playlog/aaa"@.len());
    assert("playlog/a"@.len() != "playlog/aa"@.len());
    assert("playlog/bbb"@.len() != "playlog/sssplus"@.len());
    assert("playlog/bbb"@[8] != "playlog/sss"@[8]);
    assert("playlog/bbb"@.len() != "playlog/ssplus"@.len());
    assert("playlog/bbb"@.len() != "playlog/ss"@.len());
    assert("playlog/bbb"@.len() != "playlog/splus"@.len());
    assert("playlog/bbb"@.len() != "playlog/s"@.len());
    assert("playlog/bbb"@[8] != "playlog/aaa"@[8]);
    assert("playlog/bbb"@.len() != "playlog/aa"@.len());
    assert("playlog/bbb"@.len() != "playlog/a"@.len());
    assert("playlog/bb"@.len() != "playlog/sssplus"@.len());
    assert("playlog/bb"@.len() != "playlog/sss"@.len());
    assert("playlog/bb"@.len() != "playlog/ssplus"@.len());
    assert("playlog/bb"@[8] != "playlog/ss"@[8]);
    assert("playlog/bb"@.len() != "playlog/splus"@.len());
    assert("playlog/bb"@.len() != "playlog/s"@.len());
    assert("playlog/bb"@.len() != "playlog/aaa"@.len());
    assert("playlog/bb"@[8] != "playlog/aa"@[8]);
    assert("playlog/bb"@.len() != "playlog/a"@.len());
    assert("playlog/bb"@.len() != "playlog/bbb"@.len());
    assert("playlog/b"@.len() != "playlog/sssplus"@.len());
    assert("playlog/b"@.len() != "playlog/sss"@.len());
    assert("playlog/b"@.len() != "playlog/ssplus"@.len());
    assert("playlog/b"@.len() != "playlog/ss"@.len());
    assert("playlog/b"@.len() != "playlog/splus"@.len());
    assert("playlog/b"@[8] != "playlog/s"@[8]);
    assert("playlog/b"@.len() != "playlog/aaa"@.len());
    assert("playlog/b"@.len() != "playlog/aa"@.len());
    assert("playlog/b"@[8] != "playlog/a"@[8]);
    assert("playlog/b"@.len() != "playlog/bbb"@.len());
    assert("playlog/b"@.len() != "playlog/bb"@.len());
    assert("playlog/c"@.len() != "playlog/sssplus"@.len());
    assert("playlog/c"@.len() != "playlog/sss"@.len());
    assert("playlog/c"@.len() != "playlog/ssplus"@.len());
    assert("playlog/c"@.len() != "playlog/ss"@.len());
    assert("playlog/c"@.len() != "playlog/splus"@.len());
    assert("playlog/c"@[8] != "playlog/s"@[8]);
    assert("playlog/c"@.len() != "playlog/aaa"@.len());
    assert("playlog/c"@.len() != "playlog/aa"@.len());
    assert("playlog/c"@[8] != "playlog/a"@[8]);
    assert("playlog/c"@.len() != "playlog/bbb"@.len());
    assert("playlog/c"@.len() != "playlog/bb"@.len());
    assert("playlog/c"@[8] != "playlog/b"@[8]);
    assert("playlog/d"@.len() != "playlog/sssplus"@.len());
    assert("playlog/d"@.len() != "playlog/sss"@.len());
    assert("playlog/d"@.len() != "playlog/ssplus"@.len());
    assert("playlog/d"@.len() != "playlog/ss"@.len());
    assert("playlog/d"@.len() != "playlog/splus"@.len());
    assert("playlog/d"@[8] != "playlog/s"@[8]);
    assert("playlog/d"@.len() != "playlog/aaa"@.len());
    assert("playlog/d"@.len() != "playlog/aa"@.len());
    assert("playlog/d"@[8] != "playlog/a"@[8]);
    assert("playlog/d"@.len() != "playlog/bbb"@.len());
    assert("playlog/d"@.len() != "playlog/bb"@.len());
    assert("playlog/d"@[8] != "playlog/b"@[8]);
    assert("playlog/d"@[8] != "playlog/c"@[8]);
}

/// The achievement rank that a play-record rank image shows, from its address.
pub open spec fn achievement_rank_of_src(s: Seq<char>) -> Option<AchievementRank> {
    match img_src_parts(s) {
        Some(p) => achievement_rank_of_img(p.0, p.1, p.2),
        None => None,
    }
}

fn achievement_rank_img(intl: bool, path: &str, ver: Option<&str>) -> (r: Option<AchievementRank>)
    ensures
        r == achievement_rank_of_img(intl, path@, opt_view(ver)),
{
    let playlog_release = is_playlog_release(intl, ver);
    if playlog_release && str_eq(path, "playlog/sssplus") {
        Some(AchievementRank::SSSPlus)
    } else if playlog_release && str_eq(path, "playlog/sss") {
        Some(AchievementRank::SSS)
    } else if playlog_release && str_eq(path, "playlog/ssplus") {
        Some(AchievementRank::SSPlus)
    } else if playlog_release && str_eq(path, "playlog/ss") {
        Some(AchievementRank::SS)
    } else if playlog_release && str_eq(path, "playlog/splus") {
        Some(AchievementRank::SPlus)
    } else if playlog_release && str_eq(path, "playlog/s") {
        Some(AchievementRank::S)
    } else if playlog_release && str_eq(path, "playlog/aaa") {
        Some(AchievementRank::AAA)
    } else if playlog_release && str_eq(path, "playlog/aa") {
        Some(AchievementRank::AA)
    } else if playlog_release && str_eq(path, "playlog/a") {
        Some(AchievementRank::A)
    } else if playlog_release && str_eq(path, "playlog/bbb") {
        Some(AchievementRank::BBB)
    } else if playlog_release && str_eq(path, "playlog/bb") {
        Some(AchievementRank::BB)
    } else if playlog_release && str_eq(path, "playlog/b") {
        Some(AchievementRank::B)
    } else if playlog_release && str_eq(path, "playlog/c") {
        Some(AchievementRank::C)
    } else if playlog_release && str_eq(path, "playlog/d") {
        Some(AchievementRank::D)
    } else {
        None
    }
}

/// Reads the achievement rank that a play-record rank image shows from the image's `src` attribute.
pub fn parse_achievement_rank(src: Option<&str>) -> (r: Result<AchievementRank, ImgSrcError>)
    ensures
        src is None ==> r == Err::<AchievementRank, ImgSrcError>(ImgSrcError::NoSrc),
        src matches Some(s) ==> match achievement_rank_of_src(s@) {
            Some(v) => r == Ok::<AchievementRank, ImgSrcError>(v),
            None => r matches Err(ImgSrcError::UnknownSrc(u)) && u@ == s@,
        },
{
    let s = match src {
        Some(s) => s,
        None => {
            return Err(ImgSrcError::NoSrc);
        },
    };
    let found = match split_img_src(s) {
        Some((intl, path, ver)) => achievement_rank_img(intl, path, ver),
        None => None,
    };
    match found {
        Some(v) => Ok(v),
        None => Err(ImgSrcError::UnknownSrc(s.to_owned())),
    }
}

/// The number of DX score stars that a star image shows, from the parts of its address.
pub open spec fn dxstar_of_img(intl: bool, path: Seq<char>, ver: Option<Seq<char>>) -> Option<u8> {
    if path == "playlog/dxstar_1"@ && plain_release(intl, ver) {
        Some(1u8)
    } else if path == "playlog/dxstar_2"@ && plain_release(intl, ver) {
        Some(2u8)
    } else if path == "playlog/dxstar_3"@ && plain_release(intl, ver) {
        Some(3u8)
    } else if path == "playlog/dxstar_4"@ && plain_release(intl, ver) {
        Some(4u8)
    } else if path == "playlog/dxstar_5"@ && plain_release(intl, ver) {
        Some(5u8)
    } else {
        None
    }
}

/// The number of DX stars an image shows is the number of stars its file names: each known image, in a
/// release it is accepted in, reads as its own value, and two images that
/// read as the same value are the same image.
pub proof fn lemma_dxstar_of_img_names(intl: bool, ver: Option<Seq<char>>)
    ensures
        plain_release(intl, ver) ==> dxstar_of_img(intl, "playlog/dxstar_1"@, ver) == Some(1u8),
        plain_release(intl, ver) ==> dxstar_of_img(intl, "playlog/dxstar_2"@, ver) == Some(2u8),
        plain_release(intl, ver) ==> dxstar_of_img(intl, "playlog/dxstar_3"@, ver) == Some(3u8),
        plain_release(intl, ver) ==> dxstar_of_img(intl, "playlog/dxstar_4"@, ver) == Some(4u8),
        plain_release(intl, ver) ==> dxstar_of_img(intl, "playlog/dxstar_5"@, ver) == Some(5u8),
        forall|p: Seq<char>, q: Seq<char>|
            #[trigger] dxstar_of_img(intl, p, ver) is Some && dxstar_of_img(intl, p, ver) == #[trigger] dxstar_of_img(intl, q, ver) ==> p == q,
{
    reveal_strlit("playlog/dxstar_1");
    reveal_strlit("playlog/dxstar_2");
    reveal_strlit("playlog/dxstar_3");
    reveal_strlit("playlog/dxstar_4");
    reveal_strlit("playlog/dxstar_5");
    assert("playlog/dxstar_2"@[15] != "playlog/dxstar_1"@[15]);
    assert("playlog/dxstar_3"@[15] != "playlog/dxstar_1"@[15]);
    assert("playlog/dxstar_3"@[15] != "playlog/dxstar_2"@[15]);
    assert("playlog/dxstar_4"@[15] != "playlog/dxstar_1"@[15]);
    assert("playlog/dxstar_4"@[15] != "playlog/dxstar_2"@[15]);
    assert("playlog/dxstar_4"@[15] != "playlog/dxstar_3"@[15]);
    assert("playlog/dxstar_5"@[15] != "playlog/dxstar_1"@[15]);
    assert("playlog/dxstar_5"@[15] != "playlog/dxstar_2"@[15]);
    assert("playlog/dxstar_5"@[15] != "playlog/dxstar_3"@[15]);
    assert("playlog/dxstar_5"@[15] != "playlog/dxstar_4"@[15]);
}

/// The number of DX score stars that a star image shows, from its address.
pub open spec fn dxstar_of_src(s: Seq<char>) -> Option<u8> {
    match img_src_parts(s) {
        Some(p) => dxstar_of_img(p.0, p.1, p.2),
        None => None,
    }
}

fn dxstar_img(intl: bool, path: &str, ver: Option<&str>) -> (r: Option<u8>)
    ensures
        r == dxstar_of_img(intl, path@, opt_view(ver)),
{
    let plain_release = is_plain_release(intl, ver);
    if plain_release && str_eq(path, "playlog/dxstar_1") {
        Some(1u8)
    } else if plain_release && str_eq(path, "playlog/dxstar_2") {
        Some(2u8)
    } else if plain_release && str_eq(path, "playlog/dxstar_3") {
        Some(3u8)
    } else if plain_release && str_eq(path, "playlog/dxstar_4") {
        Some(4u8)
    } else if plain_release && str_eq(path, "playlog/dxstar_5") {
        Some(5u8)
    } else {
        None
    }
}

/// Reads the number of DX score stars that a star image shows from the image's `src` attribute.
pub fn parse_dxstar(src: Option<&str>) -> (r: Result<DeluxscoreRank, ImgSrcError>)
    ensures
        src is None ==> r == Err::<DeluxscoreRank, ImgSrcError>(ImgSrcError::NoSrc),
        src matches Some(s) ==> match dxstar_of_src(s@) {
            Some(n) => r matches Ok(x) && x.value() == n,
            None => r matches Err(ImgSrcError::UnknownSrc(u)) && u@ == s@,
        },
{
    let s = match src {
        Some(s) => s,
        None => {
            return Err(ImgSrcError::NoSrc);
        },
    };
    let found = match split_img_src(s) {
        Some((intl, path, ver)) => dxstar_img(intl, path, ver),
        None => None,
    };
    match found {
        Some(n) => match DeluxscoreRank::try_from_u8(n) {
            Ok(x) => Ok(x),
            Err(_) => Err(ImgSrcError::UnknownSrc(s.to_owned())),
        },
        None => Err(ImgSrcError::UnknownSrc(s.to_owned())),
    }
}

/// The full-combo kind that a play-record image shows, from the parts of its address.
pub open spec fn full_combo_of_img(intl: bool, path: Seq<char>, ver: Option<Seq<char>>) -> Option<FullComboKind> {
    if path == "playlog/fc_dummy"@ && playlog_release(intl, ver) {
        Some(FullComboKind::Nothing)
    } else if path == "playlog/fc"@ && playlog_release(intl, ver) {
        Some(FullComboKind::FullCombo)
    } else if path == "playlog/fcplus"@ && playlog_release(intl, ver) {
        Some(FullComboKind::FullComboPlus)
    } else if path == "playlog/ap"@ && playlog_release(intl, ver) {
        Some(FullComboKind::AllPerfect)
    } else if path == "playlog/applus"@ && playlog_release(intl, ver) {
        Some(FullComboKind::AllPerfectPlus)
    } else {
        None
    }
}

/// The full-combo kind an image shows is the kind its file names: each known image, in a
/// release it is accepted in, reads as its own value, and two images that
/// read as the same value are the same image.
pub proof fn lemma_full_combo_of_img_names(intl: bool, ver: Option<Seq<char>>)
    ensures
        playlog_release(intl, ver) ==> full_combo_of_img(intl, "playlog/fc_dummy"@, ver) == Some(FullComboKind::Nothing),
        playlog_release(intl, ver) ==> full_combo_of_img(intl, "playlog/fc"@, ver) == Some(FullComboKind::FullCombo),
        playlog_release(intl, ver) ==> full_combo_of_img(intl, "playlog/fcplus"@, ver) == Some(FullComboKind::FullComboPlus),
        playlog_release(intl, ver) ==> full_combo_of_img(intl, "playlog/ap"@, ver) == Some(FullComboKind::AllPerfect),
        playlog_release(intl, ver) ==> full_combo_of_img(intl, "playlog/applus"@, ver) == Some(FullComboKind::AllPerfectPlus),
        forall|p: Seq<char>, q: Seq<char>|
            #[trigger] full_combo_of_img(intl, p, ver) is Some && full_combo_of_img(intl, p, ver) == #[trigger] full_combo_of_img(intl, q, ver) ==> p == q,
{
    reveal_strlit("playlog/fc_dummy");
    reveal_strlit("playlog/fc");
    reveal_strlit("playlog/fcplus");
    reveal_strlit("playlog/ap");
    reveal_strlit("playlog/applus");
    assert("playlog/fc"@.len() != "playlog/fc_dummy"@.len());
    assert("playlog/fcplus"@.len() != "playlog/fc_dummy"@.len());
    assert("playlog/fcplus"@.len() != "playlog/fc"@.len());
    assert("playlog/ap"@.len() != "playlog/fc_dummy"@.len());
    assert("playlog/ap"@[8] != "playlog/fc"@[8]);
    assert("playlog/ap"@.len() != "playlog/fcplus"@.len());
    assert("playlog/applus"@.len() != "playlog/fc_dummy"@.len());
    assert("playlog/applus"@.len() != "playlog/fc"@.len());
    assert("playlog/applus"@[8] != "playlog/fcplus"@[8]);
    assert("playlog/applus"@.len() != "playlog/ap"@.len());
}

/// The full-combo kind that a play-record image shows, from its address.
pub open spec fn full_combo_of_src(s: Seq<char>) -> Option<FullComboKind> {
    match img_src_parts(s) {
        Some(p) => full_combo_of_img(p.0, p.1, p.2),
        None => None,
    }
}

fn full_combo_img(intl: bool, path: &str, ver: Option<&str>) -> (r: Option<FullComboKind>)
    ensures
        r == full_combo_of_img(intl, path@, opt_view(ver)),
{
    let playlog_release = is_playlog_release(intl, ver);
    if playlog_release && str_eq(path, "playlog/fc_dummy") {
        Some(FullComboKind::Nothing)
    } else if playlog_release && str_eq(path, "playlog/fc") {
        Some(FullComboKind::FullCombo)
    } else if playlog_release && str_eq(path, "playlog/fcplus") {
        Some(FullComboKind::FullComboPlus)
    } else if playlog_release && str_eq(path, "playlog/ap") {
        Some(FullComboKind::AllPerfect)
    } else if playlog_release && str_eq(path, "playlog/applus") {
        Some(FullComboKind::AllPerfectPlus)
    } else {
        None
    }
}

/// Reads the full-combo kind that a play-record image shows from the image's `src` attribute.
pub fn parse_full_combo_img(src: Option<&str>) -> (r: Result<FullComboKind, ImgSrcError>)
    ensures
        src is None ==> r == Err::<FullComboKind, ImgSrcError>(ImgSrcError::NoSrc),
        src matches Some(s) ==> match full_combo_of_src(s@) {
            Some(v) => r == Ok::<FullComboKind, ImgSrcError>(v),
            None => r matches Err(ImgSrcError::UnknownSrc(u)) && u@ == s@,
        },
{
    let s = match src {
        Some(s) => s,
        None => {
            return Err(ImgSrcError::NoSrc);
        },
    };
    let found = match split_img_src(s) {
        Some((intl, path, ver)) => full_combo_img(intl, path, ver),
        None => None,
    };
    match found {
        Some(v) => Ok(v),
        None => Err(ImgSrcError::UnknownSrc(s.to_owned())),
    }
}

/// The full-sync kind that a play-record image shows, from the parts of its address.
pub open spec fn full_sync_of_img(intl: bool, path: Seq<char>, ver: Option<Seq<char>>) -> Option<FullSyncKind> {
    if path == "playlog/fs_dummy"@ && early_playlog_release(intl, ver) {
        Some(FullSyncKind::Nothing)
    } else if path == "playlog/fs"@ && playlog_release(intl, ver) {
        Some(FullSyncKind::FullSync)
    } else if path == "playlog/fsplus"@ && playlog_release(intl, ver) {
        Some(FullSyncKind::FullSyncPlus)
    } else if path == "playlog/fsd"@ && playlog_release(intl, ver) {
        Some(FullSyncKind::FullSyncDx)
    } else if path == "playlog/fsdplus"@ && playlog_release(intl, ver) {
        Some(FullSyncKind::FullSyncDxPlus)
    } else if path == "playlog/sync_dummy"@ && sync_playlog_release(intl, ver) {
        Some(FullSyncKind::Nothing)
    } else if path == "playlog/sync"@ && sync_playlog_release(intl, ver) {
        Some(FullSyncKind::SyncPlay)
    } else {
        None
    }
}

/// The full-sync kind an image shows is the kind its file names: each known image, in a
/// release it is accepted in, reads as its own value, and two images that
/// read as the same value (other than `Nothing`) are the same image.
pub proof fn lemma_full_sync_of_img_names(intl: bool, ver: Option<Seq<char>>)
    ensures
        early_playlog_release(intl, ver) ==> full_sync_of_img(intl, "playlog/fs_dummy"@, ver) == Some(FullSyncKind::Nothing),
        playlog_release(intl, ver) ==> full_sync_of_img(intl, "playlog/fs"@, ver) == Some(FullSyncKind::FullSync),
        playlog_release(intl, ver) ==> full_sync_of_img(intl, "playlog/fsplus"@, ver) == Some(FullSyncKind::FullSyncPlus),
        playlog_release(intl, ver) ==> full_sync_of_img(intl, "playlog/fsd"@, ver) == Some(FullSyncKind::FullSyncDx),
        playlog_release(intl, ver) ==> full_sync_of_img(intl, "playlog/fsdplus"@, ver) == Some(FullSyncKind::FullSyncDxPlus),
        sync_playlog_release(intl, ver) ==> full_sync_of_img(intl, "playlog/sync_dummy"@, ver) == Some(FullSyncKind::Nothing),
        sync_playlog_release(intl, ver) ==> full_sync_of_img(intl, "playlog/sync"@, ver) == Some(FullSyncKind::SyncPlay),
        forall|p: Seq<char>, q: Seq<char>|
            #[trigger] full_sync_of_img(intl, p, ver) is Some && full_sync_of_img(intl, p, ver) == #[trigger] full_sync_of_img(intl, q, ver)
                && full_sync_of_img(intl, p, ver) != Some(FullSyncKind::Nothing) ==> p == q,
{
    reveal_strlit("playlog/fs_dummy");
    reveal_strlit("playlog/fs");
    reveal_strlit("playlog/fsplus");
    reveal_strlit("playlog/fsd");
    reveal_strlit("playlog/fsdplus");
    reveal_strlit("playlog/sync_dummy");
    reveal_strlit("playlog/sync");
    assert("playlog/fs"@.len() != "playlog/fs_dummy"@.len());
    assert("playlog/fsplus"@.len() != "playlog/fs_dummy"@.len());
    assert("playlog/fsplus"@.len() != "playlog/fs"@.len());
    assert("playlog/fsd"@.len() != "playlog/fs_dummy"@.len());
    assert("playlog/fsd"@.len() != "playlog/fs"@.len());
    assert("playlog/fsd"@.len() != "playlog/fsplus"@.len());
    assert("playlog/fsdplus"@.len() != "playlog/fs_dummy"@.len());
    assert("playlog/fsdplus"@.len() != "playlog/fs"@.len());
    assert("playlog/fsdplus"@.len() != "playlog/fsplus"@.len());
    assert("playlog/fsdplus"@.len() != "playlog/fsd"@.len());
    assert("playlog/sync_dummy"@.len() != "playlog/fs_dummy"@.len());
    assert("playlog/sync_dummy"@.len() != "playlog/fs"@.len());
    assert("playlog/sync_dummy"@.len() != "playlog/fsplus"@.len());
    assert("playlog/sync_dummy"@.len() != "playlog/fsd"@.len());
    assert("playlog/sync_dummy"@.len() != "playlog/fsdplus"@.len());
    assert("playlog/sync"@.len() != "playlog/fs_dummy"@.len());
    assert("playlog/sync"@.len() != "playlog/fs"@.len());
    assert("playlog/sync"@.len() != "playlog/fsplus"@.len());
    assert("playlog/sync"@.len() != "playlog/fsd"@.len());
    assert("playlog/sync"@.len() != "playlog/fsdplus"@.len());
    assert("playlog/sync"@.len() != "playlog/sync_dummy"@.len());
}

/// The full-sync kind that a play-record image shows, from its address.
pub open spec fn full_sync_of_src(s: Seq<char>) -> Option<FullSyncKind> {
    match img_src_parts(s) {
        Some(p) => full_sync_of_img(p.0, p.1, p.2),
        None => None,
    }
}

fn full_sync_img(intl: bool, path: &str, ver: Option<&str>) -> (r: Option<FullSyncKind>)
    ensures
        r == full_sync_of_img(intl, path@, opt_view(ver)),
{
    let early_playlog_release = is_early_playlog_release(intl, ver);
    let playlog_release = is_playlog_release(intl, ver);
    let sync_playlog_release = is_sync_playlog_release(intl, ver);
    if early_playlog_release && str_eq(path, "playlog/fs_dummy") {
        Some(FullSyncKind::Nothing)
    } else if playlog_release && str_eq(path, "playlog/fs") {
        Some(FullSyncKind::FullSync)
    } else if playlog_release && str_eq(path, "playlog/fsplus") {
        Some(FullSyncKind::FullSyncPlus)
    } else if playlog_release && str_eq(path, "playlog/fsd") {
        Some(FullSyncKind::FullSyncDx)
    } else if playlog_release && str_eq(path, "playlog/fsdplus") {
        Some(FullSyncKind::FullSyncDxPlus)
    } else if sync_playlog_release && str_eq(path, "playlog/sync_dummy") {
        Some(FullSyncKind::Nothing)
    } else if sync_playlog_release && str_eq(path, "playlog/sync") {
        Some(FullSyncKind::SyncPlay)
    } else {
        None
    }
}

/// Reads the full-sync kind that a play-record image shows from the image's `src` attribute.
pub fn parse_full_sync_img(src: Option<&str>) -> (r: Result<FullSyncKind, ImgSrcError>)
    ensures
        src is None ==> r == Err::<FullSyncKind, ImgSrcError>(ImgSrcError::NoSrc),
        src matches Some(s) ==> match full_sync_of_src(s@) {
            Some(v) => r == Ok::<FullSyncKind, ImgSrcError>(v),
            None => r matches Err(ImgSrcError::UnknownSrc(u)) && u@ == s@,
        },
{
    let s = match src {
        Some(s) => s,
        None => {
            return Err(ImgSrcError::NoSrc);
        },
    };
    let found = match split_img_src(s) {
        Some((intl, path, ver)) => full_sync_img(intl, path, ver),
        None => None,
    };
    match found {
        Some(v) => Ok(v),
        None => Err(ImgSrcError::UnknownSrc(s.to_owned())),
    }
}

/// The place in a multi-player session that an image shows, from the parts of its address.
pub open spec fn matching_rank_of_img(intl: bool, path: Seq<char>, ver: Option<Seq<char>>) -> Option<u8> {
    if path == "playlog/1st"@ && plain_release(intl, ver) {
        Some(1u8)
    } else if path == "playlog/2nd"@ && plain_release(intl, ver) {
        Some(2u8)
    } else if path == "playlog/3rd"@ && plain_release(intl, ver) {
        Some(3u8)
    } else if path == "playlog/4th"@ && plain_release(intl, ver) {
        Some(4u8)
    } else {
        None
    }
}

/// The matching rank an image shows is the place its file names: each known image, in a
/// release it is accepted in, reads as its own value, and two images that
/// read as the same value are the same image.
pub proof fn lemma_matching_rank_of_img_names(intl: bool, ver: Option<Seq<char>>)
    ensures
        plain_release(intl, ver) ==> matching_rank_of_img(intl, "playlog/1st"@, ver) == Some(1u8),
        plain_release(intl, ver) ==> matching_rank_of_img(intl, "playlog/2nd"@, ver) == Some(2u8),
        plain_release(intl, ver) ==> matching_rank_of_img(intl, "playlog/3rd"@, ver) == Some(3u8),
        plain_release(intl, ver) ==> matching_rank_of_img(intl, "playlog/4th"@, ver) == Some(4u8),
        forall|p: Seq<char>, q: Seq<char>|
            #[trigger] matching_rank_of_img(intl, p, ver) is Some && matching_rank_of_img(intl, p, ver) == #[trigger] matching_rank_of_img(intl, q, ver) ==> p == q,
{
    reveal_strlit("playlog/1st");
    reveal_strlit("playlog/2nd");
    reveal_strlit("playlog/3rd");
    reveal_strlit("playlog/4th");
    assert("playlog/2nd"@[8] != "playlog/1st"@[8]);
    assert("playlog/3rd"@[8] != "playlog/1st"@[8]);
    assert("playlog/3rd"@[8] != "playlog/2nd"@[8]);
    assert("playlog/4th"@[8] != "playlog/1st"@[8]);
    assert("playlog/4th"@[8] != "playlog/2nd"@[8]);
    assert("playlog/4th"@[8] != "playlog/3rd"@[8]);
}

/// The place in a multi-player session that an image shows, from its address.
pub open spec fn matching_rank_of_src(s: Seq<char>) -> Option<u8> {
    match img_src_parts(s) {
        Some(p) => matching_rank_of_img(p.0, p.1, p.2),
        None => None,
    }
}

fn matching_rank_img(intl: bool, path: &str, ver: Option<&str>) -> (r: Option<u8>)
    ensures
        r == matching_rank_of_img(intl, path@, opt_view(ver)),
{
    let plain_release = is_plain_release(intl, ver);
    if plain_release && str_eq(path, "playlog/1st") {
        Some(1u8)
    } else if plain_release && str_eq(path, "playlog/2nd") {
        Some(2u8)
    } else if plain_release && str_eq(path, "playlog/3rd") {
        Some(3u8)
    } else if plain_release && str_eq(path, "playlog/4th") {
        Some(4u8)
    } else {
        None
    }
}

/// Reads the place in a multi-player session that an image shows from the image's `src` attribute.
pub fn parse_matching_rank_img(src: Option<&str>) -> (r: Result<MatchingRank, ImgSrcError>)
    ensures
        src is None ==> r == Err::<MatchingRank, ImgSrcError>(ImgSrcError::NoSrc),
        src matches Some(s) ==> match matching_rank_of_src(s@) {
            Some(n) => r matches Ok(x) && x.value() == n,
            None => r matches Err(ImgSrcError::UnknownSrc(u)) && u@ == s@,
        },
{
    let s = match src {
        Some(s) => s,
        None => {
            return Err(ImgSrcError::NoSrc);
        },
    };
    let found = match split_img_src(s) {
        Some((intl, path, ver)) => matching_rank_img(intl, path, ver),
        None => None,
    };
    match found {
        Some(n) => match MatchingRank::try_from_u8(n) {
            Ok(x) => Ok(x),
            Err(_) => Err(ImgSrcError::UnknownSrc(s.to_owned())),
        },
        None => Err(ImgSrcError::UnknownSrc(s.to_owned())),
    }
}

/// The rating frame colour that a frame image shows, from the parts of its address.
pub open spec fn rating_color_of_img(intl: bool, path: Seq<char>, ver: Option<Seq<char>>) -> Option<RatingBorderColor> {
    if path == "rating_base_normal"@ && rating_base_release(intl, ver) {
        Some(RatingBorderColor::Normal)
    } else if path == "rating_base_blue"@ && rating_base_release(intl, ver) {
        Some(RatingBorderColor::Blue)
    } else if path == "rating_base_green"@ && rating_base_release(intl, ver) {
        Some(RatingBorderColor::Green)
    } else if path == "rating_base_orange"@ && rating_base_release(intl, ver) {
        Some(RatingBorderColor::Orange)
    } else if path == "rating_base_red"@ && rating_base_release(intl, ver) {
        Some(RatingBorderColor::Red)
    } else if path == "rating_base_purple"@ && rating_base_release(intl, ver) {
        Some(RatingBorderColor::Purple)
    } else if path == "rating_base_bronze"@ && rating_base_release(intl, ver) {
        Some(RatingBorderColor::Bronze)
    } else if path == "rating_base_silver"@ && rating_base_release(intl, ver) {
        Some(RatingBorderColor::Silver)
    } else if path == "rating_base_gold"@ && rating_base_release(intl, ver) {
        Some(RatingBorderColor::Gold)
    } else if path == "rating_base_rainbow"@ && rating_base_release(intl, ver) {
        Some(RatingBorderColor::Rainbow)
    } else if path == "rating_base_platinum"@ && rating_platinum_release(intl, ver) {
        Some(RatingBorderColor::Platinum)
    } else {
        None
    }
}

/// The border color an image shows is the color its file names: each known image, in a
/// release it is accepted in, reads as its own value, and two images that
/// read as the same value are the same image.
pub proof fn lemma_rating_color_of_img_names(intl: bool, ver: Option<Seq<char>>)
    ensures
        rating_base_release(intl, ver) ==> rating_color_of_img(intl, "rating_base_normal"@, ver) == Some(RatingBorderColor::Normal),
        rating_base_release(intl, ver) ==> rating_color_of_img(intl, "rating_base_blue"@, ver) == Some(RatingBorderColor::Blue),
        rating_base_release(intl, ver) ==> rating_color_of_img(intl, "rating_base_green"@, ver) == Some(RatingBorderColor::Green),
        rating_base_release(intl, ver) ==> rating_color_of_img(intl, "rating_base_orange"@, ver) == Some(RatingBorderColor::Orange),
        rating_base_release(intl, ver) ==> rating_color_of_img(intl, "rating_base_red"@, ver) == Some(RatingBorderColor::Red),
        rating_base_release(intl, ver) ==> rating_color_of_img(intl, "rating_base_purple"@, ver) == Some(RatingBorderColor::Purple),
        rating_base_release(intl, ver) ==> rating_color_of_img(intl, "rating_base_bronze"@, ver) == Some(RatingBorderColor::Bronze),
        rating_base_release(intl, ver) ==> rating_color_of_img(intl, "rating_base_silver"@, ver) == Some(RatingBorderColor::Silver),
        rating_base_release(intl, ver) ==> rating_color_of_img(intl, "rating_base_gold"@, ver) == Some(RatingBorderColor::Gold),
        rating_base_release(intl, ver) ==> rating_color_of_img(intl, "rating_base_rainbow"@, ver) == Some(RatingBorderColor::Rainbow),
        rating_platinum_release(intl, ver) ==> rating_color_of_img(intl, "rating_base_platinum"@, ver) == Some(RatingBorderColor::Platinum),
        forall|p: Seq<char>, q: Seq<char>|
            #[trigger] rating_color_of_img(intl, p, ver) is Some && rating_color_of_img(intl, p, ver) == #[trigger] rating_color_of_img(intl, q, ver) ==> p == q,
{
    reveal_strlit("rating_base_normal");
    reveal_strlit("rating_base_blue");
    reveal_strlit("rating_base_green");
    reveal_strlit("rating_base_orange");
    reveal_strlit("rating_base_red");
    reveal_strlit("rating_base_purple");
    reveal_strlit("rating_base_bronze");
    reveal_strlit("rating_base_silver");
    reveal_strlit("rating_base_gold");
    reveal_strlit("rating_base_rainbow");
    reveal_strlit("rating_base_platinum");
    assert("rating_base_blue"@.len() != "rating_base_normal"@.len());
    assert("rating_base_green"@.len() != "rating_base_normal"@.len());
    assert("rating_base_green"@.len() != "rating_base_blue"@.len());
    assert("rating_base_orange"@[12] != "rating_base_normal"@[12]);
    assert("rating_base_orange"@.len() != "rating_base_blue"@.len());
    assert("rating_base_orange"@.len() != "rating_base_green"@.len());
    assert("rating_base_red"@.len() != "rating_base_normal"@.len());
    assert("rating_base_red"@.len() != "rating_base_blue"@.len());
    assert("rating_base_red"@.len() != "rating_base_green"@.len());
    assert("rating_base_red"@.len() != "rating_base_orange"@.len());
    assert("rating_base_purple"@[12] != "rating_base_normal"@[12]);
    assert("rating_base_purple"@.len() != "rating_base_blue"@.len());
    assert("rating_base_purple"@.len() != "rating_base_green"@.len());
    assert("rating_base_purple"@[12] != "rating_base_orange"@[12]);
    assert("rating_base_purple"@.len() != "rating_base_red"@.len());
    assert("rating_base_bronze"@[12] != "rating_base_normal"@[12]);
    assert("rating_base_bronze"@.len() != "rating_base_blue"@.len());
    assert("rating_base_bronze"@.len() != "rating_base_green"@.len());
    assert("rating_base_bronze"@[12] != "rating_base_orange"@[12]);
    assert("rating_base_bronze"@.len() != "rating_base_red"@.len());
    assert("rating_base_bronze"@[12] != "rating_base_purple"@[12]);
    assert("rating_base_silver"@[12] != "rating_base_normal"@[12]);
    assert("rating_base_silver"@.len() != "rating_base_blue"@.len());
    assert("rating_base_silver"@.len() != "rating_base_green"@.len());
    assert("rating_base_silver"@[12] != "rating_base_orange"@[12]);
    assert("rating_base_silver"@.len() != "rating_base_red"@.len());
    assert("rating_base_silver"@[12] != "rating_base_purple"@[12]);
    assert("rating_base_silver"@[12] != "rating_base_bronze"@[12]);
    assert("rating_base_gold"@.len() != "rating_base_normal"@.len());
    assert("rating_base_gold"@[12] != "rating_base_blue"@[12]);
    assert("rating_base_gold"@.len() != "rating_base_green"@.len());
    assert("rating_base_gold"@.len() != "rating_base_orange"@.len());
    assert("rating_base_gold"@.len() != "rating_base_red"@.len());
    assert("rating_base_gold"@.len() != "rating_base_purple"@.len());
    assert("rating_base_gold"@.len() != "rating_base_bronze"@.len());
    assert("rating_base_gold"@.len() != "rating_base_silver"@.len());
    assert("rating_base_rainbow"@.len() != "rating_base_normal"@.len());
    assert("rating_base_rainbow"@.len() != "rating_base_blue"@.len());
    assert("rating_base_rainbow"@.len() != "rating_base_green"@.len());
    assert("rating_base_rainbow"@.len() != "rating_base_orange"@.len());
    assert("rating_base_rainbow"@.len() != "rating_base_red"@.len());
    assert("rating_base_rainbow"@.len() != "rating_base_purple"@.len());
    assert("rating_base_rainbow"@.len() != "rating_base_bronze"@.len());
    assert("rating_base_rainbow"@.len() != "rating_base_silver"@.len());
    assert("rating_base_rainbow"@.len() != "rating_base_gold"@.len());
    assert("rating_base_platinum"@.len() != "rating_base_normal"@.len());
    assert("rating_base_platinum"@.len() != "rating_base_blue"@.len());
    assert("rating_base_platinum"@.len() != "rating_base_green"@.len());
    assert("rating_base_platinum"@.len() != "rating_base_orange"@.len());
    assert("rating_base_platinum"@.len() != "rating_base_red"@.len());
    assert("rating_base_platinum"@.len() != "rating_base_purple"@.len());
    assert("rating_base_platinum"@.len() != "rating_base_bronze"@.len());
    assert("rating_base_platinum"@.len() != "rating_base_silver"@.len());
    assert("rating_base_platinum"@.len() != "rating_base_gold"@.len());
    assert("rating_base_platinum"@.len() != "rating_base_rainbow"@.len());
}

/// The rating frame colour that a frame image shows, from its address.
pub open spec fn rating_color_of_src(s: Seq<char>) -> Option<RatingBorderColor> {
    match img_src_parts(s) {
        Some(p) => rating_color_of_img(p.0, p.1, p.2),
        None => None,
    }
}

fn rating_color_img(intl: bool, path: &str, ver: Option<&str>) -> (r: Option<RatingBorderColor>)
    ensures
        r == rating_color_of_img(intl, path@, opt_view(ver)),
{
    let rating_base_release = is_rating_base_release(intl, ver);
    let rating_platinum_release = is_rating_platinum_release(intl, ver);
    if rating_base_release && str_eq(path, "rating_base_normal") {
        Some(RatingBorderColor::Normal)
    } else if rating_base_release && str_eq(path, "rating_base_blue") {
        Some(RatingBorderColor::Blue)
    } else if rating_base_release && str_eq(path, "rating_base_green") {
        Some(RatingBorderColor::Green)
    } else if rating_base_release && str_eq(path, "rating_base_orange") {
        Some(RatingBorderColor::Orange)
    } else if rating_base_release && str_eq(path, "rating_base_red") {
        Some(RatingBorderColor::Red)
    } else if rating_base_release && str_eq(path, "rating_base_purple") {
        Some(RatingBorderColor::Purple)
    } else if rating_base_release && str_eq(path, "rating_base_bronze") {
        Some(RatingBorderColor::Bronze)
    } else if rating_base_release && str_eq(path, "rating_base_silver") {
        Some(RatingBorderColor::Silver)
    } else if rating_base_release && str_eq(path, "rating_base_gold") {
        Some(RatingBorderColor::Gold)
    } else if rating_base_release && str_eq(path, "rating_base_rainbow") {
        Some(RatingBorderColor::Rainbow)
    } else if rating_platinum_release && str_eq(path, "rating_base_platinum") {
        Some(RatingBorderColor::Platinum)
    } else {
        None
    }
}

/// Reads the rating frame colour that a frame image shows from the image's `src` attribute.
pub fn parse_rating_color(src: Option<&str>) -> (r: Result<RatingBorderColor, ImgSrcError>)
    ensures
        src is None ==> r == Err::<RatingBorderColor, ImgSrcError>(ImgSrcError::NoSrc),
        src matches Some(s) ==> match rating_color_of_src(s@) {
            Some(v) => r == Ok::<RatingBorderColor, ImgSrcError>(v),
            None => r matches Err(ImgSrcError::UnknownSrc(u)) && u@ == s@,
        },
{
    let s = match src {
        Some(s) => s,
        None => {
            return Err(ImgSrcError::NoSrc);
        },
    };
    let found = match split_img_src(s) {
        Some((intl, path, ver)) => rating_color_img(intl, path, ver),
        None => None,
    };
    match found {
        Some(v) => Ok(v),
        None => Err(ImgSrcError::UnknownSrc(s.to_owned())),
    }
}

/// The direction of a rating change that an arrow image shows, from the parts of its address.
pub open spec fn delta_sign_of_img(intl: bool, path: Seq<char>, ver: Option<Seq<char>>) -> Option<RatingDeltaSign> {
    if path == "playlog/rating_up"@ && plain_release(intl, ver) {
        Some(RatingDeltaSign::Up)
    } else if path == "playlog/rating_keep"@ && plain_release(intl, ver) {
        Some(RatingDeltaSign::Keep)
    } else if path == "playlog/rating_down"@ && plain_release(intl, ver) {
        Some(RatingDeltaSign::Down)
    } else {
        None
    }
}

/// The direction an image shows is the direction its file names: each known image, in a
/// release it is accepted in, reads as its own value, and two images that
/// read as the same value are the same image.
pub proof fn lemma_delta_sign_of_img_names(intl: bool, ver: Option<Seq<char>>)
    ensures
        plain_release(intl, ver) ==> delta_sign_of_img(intl, "playlog/rating_up"@, ver) == Some(RatingDeltaSign::Up),
        plain_release(intl, ver) ==> delta_sign_of_img(intl, "playlog/rating_keep"@, ver) == Some(RatingDeltaSign::Keep),
        plain_release(intl, ver) ==> delta_sign_of_img(intl, "playlog/rating_down"@, ver) == Some(RatingDeltaSign::Down),
        forall|p: Seq<char>, q: Seq<char>|
            #[trigger] delta_sign_of_img(intl, p, ver) is Some && delta_sign_of_img(intl, p, ver) == #[trigger] delta_sign_of_img(intl, q, ver) ==> p == q,
{
    reveal_strlit("playlog/rating_up");
    reveal_strlit("playlog/rating_keep");
    reveal_strlit("playlog/rating_down");
    assert("playlog/rating_keep"@.len() != "playlog/rating_up"@.len());
    assert("playlog/rating_down"@.len() != "playlog/rating_up"@.len());
    assert("playlog/rating_down"@[15] != "playlog/rating_keep"@[15]);
}

/// The direction of a rating change that an arrow image shows, from its address.
pub open spec fn delta_sign_of_src(s: Seq<char>) -> Option<RatingDeltaSign> {
    match img_src_parts(s) {
        Some(p) => delta_sign_of_img(p.0, p.1, p.2),
        None => None,
    }
}

fn delta_sign_img(intl: bool, path: &str, ver: Option<&str>) -> (r: Option<RatingDeltaSign>)
    ensures
        r == delta_sign_of_img(intl, path@, opt_view(ver)),
{
    let plain_release = is_plain_release(intl, ver);
    if plain_release && str_eq(path, "playlog/rating_up") {
        Some(RatingDeltaSign::Up)
    } else if plain_release && str_eq(path, "playlog/rating_keep") {
        Some(RatingDeltaSign::Keep)
    } else if plain_release && str_eq(path, "playlog/rating_down") {
        Some(RatingDeltaSign::Down)
    } else {
        None
    }
}

/// Reads the direction of a rating change that an arrow image shows from the image's `src` attribute.
pub fn parse_delta_sign(src: Option<&str>) -> (r: Result<RatingDeltaSign, ImgSrcError>)
    ensures
        src is None ==> r == Err::<RatingDeltaSign, ImgSrcError>(ImgSrcError::NoSrc),
        src matches Some(s) ==> match delta_sign_of_src(s@) {
            Some(v) => r == Ok::<RatingDeltaSign, ImgSrcError>(v),
            None => r matches Err(ImgSrcError::UnknownSrc(u)) && u@ == s@,
        },
{
    let s = match src {
        Some(s) => s,
        None => {
            return Err(ImgSrcError::NoSrc);
        },
    };
    let found = match split_img_src(s) {
        Some((intl, path, ver)) => delta_sign_img(intl, path, ver),
        None => None,
    };
    match found {
        Some(v) => Ok(v),
        None => Err(ImgSrcError::UnknownSrc(s.to_owned())),
    }
}

/// The outcome of a battle that an image shows, from the parts of its address.
pub open spec fn vs_result_of_img(intl: bool, path: Seq<char>, ver: Option<Seq<char>>) -> Option<BattleWinOrLose> {
    if path == "playlog/win"@ && plain_release(intl, ver) {
        Some(BattleWinOrLose::Win)
    } else if path == "playlog/lose"@ && plain_release(intl, ver) {
        Some(BattleWinOrLose::Lose)
    } else {
        None
    }
}

/// The battle result an image shows is the result its file names: each known image, in a
/// release it is accepted in, reads as its own value, and two images that
/// read as the same value are the same image.
pub proof fn lemma_vs_result_of_img_names(intl: bool, ver: Option<Seq<char>>)
    ensures
        plain_release(intl, ver) ==> vs_result_of_img(intl, "playlog/win"@, ver) == Some(BattleWinOrLose::Win),
        plain_release(intl, ver) ==> vs_result_of_img(intl, "playlog/lose"@, ver) == Some(BattleWinOrLose::Lose),
        forall|p: Seq<char>, q: Seq<char>|
            #[trigger] vs_result_of_img(intl, p, ver) is Some && vs_result_of_img(intl, p, ver) == #[trigger] vs_result_of_img(intl, q, ver) ==> p == q,
{
    reveal_strlit("playlog/win");
    reveal_strlit("playlog/lose");
    assert("playlog/lose"@.len() != "playlog/win"@.len());
}

/// The outcome of a battle that an image shows, from its address.
pub open spec fn vs_result_of_src(s: Seq<char>) -> Option<BattleWinOrLose> {
    match img_src_parts(s) {
        Some(p) => vs_result_of_img(p.0, p.1, p.2),
        None => None,
    }
}

fn vs_result_img(intl: bool, path: &str, ver: Option<&str>) -> (r: Option<BattleWinOrLose>)
    ensures
        r == vs_result_of_img(intl, path@, opt_view(ver)),
{
    let plain_release = is_plain_release(intl, ver);
    if plain_release && str_eq(path, "playlog/win") {
        Some(BattleWinOrLose::Win)
    } else if plain_release && str_eq(path, "playlog/lose") {
        Some(BattleWinOrLose::Lose)
    } else {
        None
    }
}

/// Reads the outcome of a battle that an image shows from the image's `src` attribute.
pub fn parse_playlog_vs_result(src: Option<&str>) -> (r: Result<BattleWinOrLose, ImgSrcError>)
    ensures
        src is None ==> r == Err::<BattleWinOrLose, ImgSrcError>(ImgSrcError::NoSrc),
        src matches Some(s) ==> match vs_result_of_src(s@) {
            Some(v) => r == Ok::<BattleWinOrLose, ImgSrcError>(v),
            None => r matches Err(ImgSrcError::UnknownSrc(u)) && u@ == s@,
        },
{
    let s = match src {
        Some(s) => s,
        None => {
            return Err(ImgSrcError::NoSrc);
        },
    };
    let found = match split_img_src(s) {
        Some((intl, path, ver)) => vs_result_img(intl, path, ver),
        None => None,
    };
    match found {
        Some(v) => Ok(v),
        None => Err(ImgSrcError::UnknownSrc(s.to_owned())),
    }
}

/// The kind of battle that an image shows, from the parts of its address.
pub open spec fn battle_kind_of_img(intl: bool, path: Seq<char>, ver: Option<Seq<char>>) -> Option<BattleKind> {
    if path == "playlog/vs"@ && plain_release(intl, ver) {
        Some(BattleKind::VsFriend)
    } else if path == "playlog/boss"@ && plain_release(intl, ver) {
        Some(BattleKind::Promotion)
    } else {
        None
    }
}

/// The battle kind an image shows is the kind its file names: each known image, in a
/// release it is accepted in, reads as its own value, and two images that
/// read as the same value are the same image.
pub proof fn lemma_battle_kind_of_img_names(intl: bool, ver: Option<Seq<char>>)
    ensures
        plain_release(intl, ver) ==> battle_kind_of_img(intl, "playlog/vs"@, ver) == Some(BattleKind::VsFriend),
        plain_release(intl, ver) ==> battle_kind_of_img(intl, "playlog/boss"@, ver) == Some(BattleKind::Promotion),
        forall|p: Seq<char>, q: Seq<char>|
            #[trigger] battle_kind_of_img(intl, p, ver) is Some && battle_kind_of_img(intl, p, ver) == #[trigger] battle_kind_of_img(intl, q, ver) ==> p == q,
{
    reveal_strlit("playlog/vs");
    reveal_strlit("playlog/boss");
    assert("playlog/boss"@.len() != "playlog/vs"@.len());
}

/// The kind of battle that an image shows, from its address.
pub open spec fn battle_kind_of_src(s: Seq<char>) -> Option<BattleKind> {
    match img_src_parts(s) {
        Some(p) => battle_kind_of_img(p.0, p.1, p.2),
        None => None,
    }
}

fn battle_kind_img(intl: bool, path: &str, ver: Option<&str>) -> (r: Option<BattleKind>)
    ensures
        r == battle_kind_of_img(intl, path@, opt_view(ver)),
{
    let plain_release = is_plain_release(intl, ver);
    if plain_release && str_eq(path, "playlog/vs") {
        Some(BattleKind::VsFriend)
    } else if plain_release && str_eq(path, "playlog/boss") {
        Some(BattleKind::Promotion)
    } else {
        None
    }
}

/// Reads the kind of battle that an image shows from the image's `src` attribute.
pub fn parse_battle_kind_img(src: Option<&str>) -> (r: Result<BattleKind, ImgSrcError>)
    ensures
        src is None ==> r == Err::<BattleKind, ImgSrcError>(ImgSrcError::NoSrc),
        src matches Some(s) ==> match battle_kind_of_src(s@) {
            Some(v) => r == Ok::<BattleKind, ImgSrcError>(v),
            None => r matches Err(ImgSrcError::UnknownSrc(u)) && u@ == s@,
        },
{
    let s = match src {
        Some(s) => s,
        None => {
            return Err(ImgSrcError::NoSrc);
        },
    };
    let found = match split_img_src(s) {
        Some((intl, path, ver)) => battle_kind_img(intl, path, ver),
        None => None,
    };
    match found {
        Some(v) => Ok(v),
        None => Err(ImgSrcError::UnknownSrc(s.to_owned())),
    }
}

} // verus!

verus! {

/// Why a text field of a record page could not be read.
#[derive(Clone, Copy, PartialEq, Eq, Structural, Debug)]
pub enum FieldError {
    /// The text does not have the expected shape.
    Format,
    /// A number in the text does not fit its type.
    Number,
    /// The value is larger than the maximum it is given with.
    ValueAboveMax(u32, u32),
    /// The achievement is larger than the game can award.
    OutOfBounds(u32),
}

/// The achievement written as `I.FFFF%`: one to three digits, a point, four
/// digits and a percent sign; the value in units of 0.0001%.
pub open spec fn achievement_text_value(s: Seq<char>) -> Option<nat> {
    let k = s.len() - 6;
    if 1 <= k <= 3 && s[k] == '.' && s.last() == '%' && all_digits(s.take(k)) && all_digits(
        s.subrange(k + 1, k + 5),
    ) {
        Some(digits_value(s.take(k)) * 10000 + digits_value(s.subrange(k + 1, k + 5)))
    } else {
        None
    }
}

/// Reads an achievement such as `100.5000%`.
pub fn parse_achievement_txt(text: &str) -> (r: Result<AchievementValue, FieldError>)
    ensures
        match achievement_text_value(text@) {
            None => r == Err::<AchievementValue, FieldError>(FieldError::Format),
            Some(v) => if v <= MAX_ACHIEVEMENT {
                r matches Ok(a) && a.spec_get() == v
            } else {
                r == Err::<AchievementValue, FieldError>(FieldError::OutOfBounds(v as u32))
            },
        },
{
    let n = text.unicode_len();
    if n < 7 || n > 9 {
        return Err(FieldError::Format);
    }
    let k = n - 6;
    if text.get_char(k) != '.' || text.get_char(n - 1) != '%' {
        return Err(FieldError::Format);
    }
    assert(text@.last() == text@[n - 1]);
    let int_part = text.substring_char(0, k);
    let frac_part = text.substring_char(k + 1, k + 5);
    assert(int_part@ =~= text@.take(k as int));
    if !is_all_digits(int_part) || !is_all_digits(frac_part) {
        return Err(FieldError::Format);
    }
    proof {
        lemma_digits_value_lt(int_part@);
        lemma_digits_value_lt(frac_part@);
        reveal_with_fuel(pow10, 5);
    }
    let i = match read_digits(int_part, 999) {
        Some(v) => v,
        None => {
            return Err(FieldError::Format);
        },
    };
    let f = match read_digits(frac_part, 9999) {
        Some(v) => v,
        None => {
            return Err(FieldError::Format);
        },
    };
    let v = (i * 10000 + f) as u32;
    match AchievementValue::try_from_u32(v) {
        Ok(a) => Ok(a),
        Err(e) => Err(FieldError::OutOfBounds(e)),
    }
}

/// A decimal digit or a comma.
pub open spec fn is_digit_or_comma(c: char) -> bool {
    is_digit(c) || c == ','
}

/// One or more digits and commas.
pub open spec fn digit_group(x: Seq<char>) -> bool {
    x.len() > 0 && forall|i: int| 0 <= i < x.len() ==> is_digit_or_comma(#[trigger] x[i])
}

/// `t` is a group of digits and commas, `sep` at position `k`, and another
/// such group.
pub open spec fn splits_at(t: Seq<char>, sep: Seq<char>, k: int) -> bool {
    &&& 0 <= k
    &&& k + sep.len() <= t.len()
    &&& t.subrange(k, k + sep.len()) == sep
    &&& digit_group(t.take(k))
    &&& digit_group(t.skip(k + sep.len()))
}

/// The two groups of digits and commas that `sep` separates in `t`, if `t`
/// is made so.
pub open spec fn digit_groups(t: Seq<char>, sep: Seq<char>) -> Option<(Seq<char>, Seq<char>)> {
    if exists|k: int| splits_at(t, sep, k) {
        let k = choose|k: int| splits_at(t, sep, k);
        Some((t.take(k), t.skip(k + sep.len())))
    } else {
        None
    }
}

proof fn lemma_splits_at_unique(t: Seq<char>, sep: Seq<char>, k1: int, k2: int)
    requires
        sep.len() > 0,
        !is_digit_or_comma(sep[0]),
        splits_at(t, sep, k1),
        splits_at(t, sep, k2),
    ensures
        k1 == k2,
{
    if k1 < k2 {
        assert(t.take(k2)[k1] == t[k1]);
        assert(t.subrange(k1, k1 + sep.len())[0] == t[k1]);
    }
    if k2 < k1 {
        assert(t.take(k1)[k2] == t[k2]);
        assert(t.subrange(k2, k2 + sep.len())[0] == t[k2]);
    }
}

/// One or more digits and commas.
fn is_digit_group(b: &str) -> (r: bool)
    ensures
        r == digit_group(b@),
{
    let bn = b.unicode_len();
    if bn == 0 {
        return false;
    }
    let mut i: usize = 0;
    while i < bn
        invariant
            0 <= i <= bn,
            bn == b@.len(),
            forall|x: int| 0 <= x < i ==> is_digit_or_comma(#[trigger] b@[x]),
        decreases bn - i,
    {
        let c = b.get_char(i);
        if !(is_digit_char(c) || c == ',') {
            return false;
        }
        i = i + 1;
    }
    true
}

/// Splits `t` into two groups of digits and commas around `sep`.
fn split_digit_groups<'a>(t: &'a str, sep: &str) -> (r: Option<(&'a str, &'a str)>)
    requires
        sep@.len() > 0,
        !is_digit_or_comma(sep@[0]),
    ensures
        match r {
            Some((a, b)) => digit_groups(t@, sep@) == Some((a@, b@)),
            None => digit_groups(t@, sep@) is None,
        },
{
    let n = t.unicode_len();
    let m = sep.unicode_len();
    let mut j: usize = 0;
    while j < n && (is_digit_char(t.get_char(j)) || t.get_char(j) == ',')
        invariant
            0 <= j <= n,
            n == t@.len(),
            forall|i: int| 0 <= i < j ==> is_digit_or_comma(#[trigger] t@[i]),
        decreases n - j,
    {
        j = j + 1;
    }
    let ghost tv = t@;
    let ghost sv = sep@;
    // Any split point is the first character that is no digit or comma.
    assert((exists|k: int| splits_at(tv, sv, k)) ==> splits_at(tv, sv, j as int)) by {
        if exists|k: int| splits_at(tv, sv, k) {
            let k = choose|k: int| splits_at(tv, sv, k);
            assert(tv.subrange(k, k + sv.len())[0] == tv[k]);
            if k < j {
                assert(is_digit_or_comma(tv[k]));
            }
            if j < k {
                assert(tv.take(k)[j as int] == tv[j as int]);
            }
            assert(k == j);
        }
    }
    if j == 0 || m > n - j {
        return None;
    }
    let mid = t.substring_char(j, j + m);
    if !str_eq(mid, sep) {
        return None;
    }
    let a = t.substring_char(0, j);
    let b = t.substring_char(j + m, n);
    assert(b@ =~= tv.skip(j + m));
    if !is_digit_group(b) {
        return None;
    }
    proof {
        assert(a@ =~= tv.take(j as int));
        assert(b@ =~= tv.skip(j + m));
        assert(splits_at(tv, sv, j as int));
        let k = choose|k: int| splits_at(tv, sv, k);
        lemma_splits_at_unique(tv, sv, k, j as int);
    }
    Some((a, b))
}

/// What `str::parse::<u32>` gives for `s` once its commas are taken out.
pub open spec fn integer_with_comma_value(s: Seq<char>) -> Option<nat> {
    parse_unsigned(without_commas(s), u32::MAX as nat)
}

/// Reads a number written with thousands separators, such as `1,234`.
pub fn parse_integer_with_camma(s: &str) -> (r: Option<u32>)
    ensures
        match integer_with_comma_value(s@) {
            Some(v) => r == Some(v as u32),
            None => r is None,
        },
{
    let t = remove_commas(s);
    match parse_unsigned_max(t.as_str(), 0xffff_ffff) {
        Some(v) => Some(v as u32),
        None => None,
    }
}

/// A value and its maximum written as two numbers with `sep` between them.
pub open spec fn ratio_of_text(t: Seq<char>, sep: Seq<char>) -> Result<(u32, u32), FieldError> {
    match digit_groups(t, sep) {
        None => Err(FieldError::Format),
        Some((a, b)) => match (integer_with_comma_value(a), integer_with_comma_value(b)) {
            (Some(x), Some(y)) => if x <= y {
                Ok((x as u32, y as u32))
            } else {
                Err(FieldError::ValueAboveMax(x as u32, y as u32))
            },
            _ => Err(FieldError::Number),
        },
    }
}

fn parse_ratio(t: &str, sep: &str) -> (r: Result<ValueWithMax<u32>, FieldError>)
    requires
        sep@.len() > 0,
        !is_digit_or_comma(sep@[0]),
    ensures
        match ratio_of_text(t@, sep@) {
            Ok((x, y)) => r matches Ok(v) && v.value_spec() == x && v.max_spec() == y,
            Err(e) => r == Err::<ValueWithMax<u32>, FieldError>(e),
        },
{
    let (a, b) = match split_digit_groups(t, sep) {
        Some(p) => p,
        None => {
            return Err(FieldError::Format);
        },
    };
    let x = match parse_integer_with_camma(a) {
        Some(x) => x,
        None => {
            return Err(FieldError::Number);
        },
    };
    let y = match parse_integer_with_camma(b) {
        Some(y) => y,
        None => {
            return Err(FieldError::Number);
        },
    };
    match ValueWithMax::new(x, y) {
        Ok(v) => Ok(v),
        Err((x, y)) => Err(FieldError::ValueAboveMax(x, y)),
    }
}

/// Reads a DX score such as `1,234 / 2,000`, ignoring surrounding white space.
pub fn parse_deluxscore(text: &str) -> (r: Result<ValueWithMax<u32>, FieldError>)
    ensures
        match ratio_of_text(trim_spec(text@), " / "@) {
            Ok((x, y)) => r matches Ok(v) && v.value_spec() == x && v.max_spec() == y,
            Err(e) => r == Err::<ValueWithMax<u32>, FieldError>(e),
        },
{
    proof {
        reveal_strlit(" / ");
    }
    parse_ratio(trim(text), " / ")
}

/// Reads a count and its maximum such as `123/456` (life, combo, sync).
pub fn parse_value_with_max(text: &str) -> (r: Result<ValueWithMax<u32>, FieldError>)
    ensures
        match ratio_of_text(text@, "/"@) {
            Ok((x, y)) => r matches Ok(v) && v.value_spec() == x && v.max_spec() == y,
            Err(e) => r == Err::<ValueWithMax<u32>, FieldError>(e),
        },
{
    proof {
        reveal_strlit("/");
    }
    parse_ratio(text, "/")
}

/// A rating change written as `(+N)` or `(-N)`: the signed value.
pub open spec fn rating_delta_text_value(s: Seq<char>) -> Option<int> {
    if s.len() >= 4 && s[0] == '(' && s.last() == ')' && (s[1] == '+' || s[1] == '-')
        && all_digits(s.subrange(2, s.len() - 1)) {
        let m = digits_value(s.subrange(2, s.len() - 1)) as int;
        Some(if s[1] == '-' { -m } else { m })
    } else {
        None
    }
}

/// Reads a rating change such as `(+12)`.
pub fn parse_rating_delta(text: &str) -> (r: Result<i16, FieldError>)
    ensures
        match rating_delta_text_value(text@) {
            None => r == Err::<i16, FieldError>(FieldError::Format),
            Some(v) => if i16::MIN <= v <= i16::MAX {
                r == Ok::<i16, FieldError>(v as i16)
            } else {
                r == Err::<i16, FieldError>(FieldError::Number)
            },
        },
{
    let n = text.unicode_len();
    if n < 4 || text.get_char(0) != '(' || text.get_char(n - 1) != ')' {
        proof {
            if n >= 1 {
                assert(text@.last() == text@[n - 1]);
            }
        }
        return Err(FieldError::Format);
    }
    assert(text@.last() == text@[n - 1]);
    let sign = text.get_char(1);
    if sign != '+' && sign != '-' {
        return Err(FieldError::Format);
    }
    let digits = text.substring_char(2, n - 1);
    if !is_all_digits(digits) {
        return Err(FieldError::Format);
    }
    let m = match read_digits(digits, 32768) {
        Some(m) => m,
        None => {
            return Err(FieldError::Number);
        },
    };
    if sign == '-' {
        Ok((0 - m as i32) as i16)
    } else if m <= 32767 {
        Ok(m as i16)
    } else {
        Err(FieldError::Number)
    }
}

/// `TRACK dd` with two digits starts at position `p` of `s`.
pub open spec fn track_text_at(s: Seq<char>, p: int) -> bool {
    0 <= p && p + 8 <= s.len() && s.subrange(p, p + 6) == "TRACK "@ && is_digit(s[p + 6])
        && is_digit(s[p + 7])
}

/// The number of the first `TRACK dd` in `s` at or after position `p`.
pub open spec fn track_text_value_from(s: Seq<char>, p: int) -> Option<nat>
    decreases s.len() - p,
{
    if p < 0 || p + 8 > s.len() {
        None
    } else if track_text_at(s, p) {
        Some(digits_value(s.subrange(p + 6, p + 8)))
    } else {
        track_text_value_from(s, p + 1)
    }
}

/// The number of the first `TRACK dd` in the text, if there is one.
pub fn first_track_number(text: &str) -> (r: Option<u64>)
    ensures
        match track_text_value_from(text@, 0) {
            None => r is None,
            Some(v) => r == Some(v as u64) && v <= 99,
        },
{
    let n = text.unicode_len();
    let mut p: usize = 0;
    while 8 <= n && p <= n - 8
        invariant
            0 <= p <= n,
            n == text@.len(),
            track_text_value_from(text@, 0) == track_text_value_from(text@, p as int),
        decreases n - p,
    {
        let head = text.substring_char(p, p + 6);
        if str_eq(head, "TRACK ") {
            let digits = text.substring_char(p + 6, p + 8);
            if is_all_digits(digits) {
                proof {
                    assert(digits@[0] == text@[p + 6]);
                    assert(digits@[1] == text@[p + 7]);
                    lemma_digits_value_lt(digits@);
                    reveal_with_fuel(pow10, 3);
                }
                return read_digits(digits, 99);
            }
            proof {
                if is_digit(text@[p + 6]) && is_digit(text@[p + 7]) {
                    assert(digits@[0] == text@[p + 6]);
                    assert(digits@[1] == text@[p + 7]);
                    assert(all_digits(digits@));
                }
            }
        }
        p = p + 1;
    }
    None
}

/// Reads the track number from text such as `TRACK 01`; the first match
/// anywhere in the text counts.
pub fn parse_track_index(text: &str) -> (r: Result<TrackIndex, FieldError>)
    requires
        track_text_value_from(text@, 0) != Some(0nat),
    ensures
        match track_text_value_from(text@, 0) {
            None => r == Err::<TrackIndex, FieldError>(FieldError::Format),
            Some(v) => r matches Ok(t) && t.value() == v,
        },
{
    match first_track_number(text) {
        None => Err(FieldError::Format),
        Some(v) => match TrackIndex::try_from_u8(v as u8) {
            Ok(t) => Ok(t),
            Err(_) => Err(FieldError::Format),
        },
    }
}

/// The format of play dates on record pages.
pub open spec fn play_date_seconds(s: Seq<char>) -> Option<i64> {
    naive_seconds_of(s, "%Y/%m/%d %H:%M"@)
}

/// Reads a play date such as `2023/09/14 01:55` (Japan time).
pub fn parse_play_date(text: &str) -> (r: Result<PlayTime, FieldError>)
    ensures
        match play_date_seconds(text@) {
            None => r == Err::<PlayTime, FieldError>(FieldError::Format),
            Some(t) => r == Ok::<PlayTime, FieldError>(PlayTime::from_seconds_spec(t as int)),
        },
{
    match parse_naive_seconds(text, "%Y/%m/%d %H:%M") {
        Some(t) => Ok(PlayTime::from_naive_seconds(t)),
        None => Err(FieldError::Format),
    }
}

/// The utage kind that a one-kanji text names, if it is one of the known
/// ones.
pub open spec fn known_utage_kind(s: Seq<char>) -> Option<UtageKind> {
    if s.len() != 1 {
        None
    } else if s[0] == '光' {
        Some(UtageKind::AllBreak)
    } else if s[0] == '協' {
        Some(UtageKind::Collaborative)
    } else if s[0] == '狂' {
        Some(UtageKind::Insane)
    } else if s[0] == '蛸' {
        Some(UtageKind::ManyHands)
    } else if s[0] == '覚' {
        Some(UtageKind::Memorize)
    } else if s[0] == '宴' {
        Some(UtageKind::Miscellaneous)
    } else if s[0] == '蔵' {
        Some(UtageKind::Shelved)
    } else if s[0] == '星' {
        Some(UtageKind::Slides)
    } else {
        None
    }
}

/// Each named utage kind is shown by its own kanji, and the page reader
/// reads that kanji back as the kind.
pub proof fn lemma_utage_kanji_read_back(k: UtageKind)
    requires
        !(k is Raw),
    ensures
        known_utage_kind(utage_kind_kanji(k)) == Some(k),
{
}

/// The utage kind shown next to the utage icon; text that names no known
/// kind is kept as it is.
pub fn parse_utage_kind(text: &str) -> (r: UtageKind)
    ensures
        match known_utage_kind(text@) {
            Some(k) => r == k,
            None => r matches UtageKind::Raw(raw) && raw.0@ == text@,
        },
{
    if text.unicode_len() == 1 {
        let c = text.get_char(0);
        if c == '光' {
            return UtageKind::AllBreak;
        } else if c == '協' {
            return UtageKind::Collaborative;
        } else if c == '狂' {
            return UtageKind::Insane;
        } else if c == '蛸' {
            return UtageKind::ManyHands;
        } else if c == '覚' {
            return UtageKind::Memorize;
        } else if c == '宴' {
            return UtageKind::Miscellaneous;
        } else if c == '蔵' {
            return UtageKind::Shelved;
        } else if c == '星' {
            return UtageKind::Slides;
        }
    }
    UtageKind::Raw(UtageKindRaw(text.to_owned()))
}

} // verus!
