use vstd::prelude::*;

use crate::maimai::parser::img_src::{img_src_parts, opt_view, split_img_src, ImgSrcError};
use crate::maimai::parser::release::{
    is_music_icon_release,
    is_music_sync_release,
    music_icon_release,
    music_sync_release,
};
use crate::maimai::rating::ScoreLevel;
use crate::maimai::schema::latest::{
    AchievementRank, AchievementValue, FullComboKind, FullSyncKind, ScoreGeneration,
    ScoreMetadata, SongName, ValueWithMax,
};
use crate::text::{ends_with, str_eq};

verus! {

/// The achievement rank that a score-list icon shows, from the parts of its address.
pub open spec fn achievement_rank_of_img(intl: bool, path: Seq<char>, ver: Option<Seq<char>>) -> Option<AchievementRank> {
    if path == "music_icon_sssp"@ && music_icon_release(intl, ver) {
        Some(AchievementRank::SSSPlus)
    } else if path == "music_icon_sss"@ && music_icon_release(intl, ver) {
        Some(AchievementRank::SSS)
    } else if path == "music_icon_ssp"@ && music_icon_release(intl, ver) {
        Some(AchievementRank::SSPlus)
    } else if path == "music_icon_ss"@ && music_icon_release(intl, ver) {
        Some(AchievementRank::SS)
    } else if path == "music_icon_sp"@ && music_icon_release(intl, ver) {
        Some(AchievementRank::SPlus)
    } else if path == "music_icon_s"@ && music_icon_release(intl, ver) {
        Some(AchievementRank::S)
    } else if path == "music_icon_aaa"@ && music_icon_release(intl, ver) {
        Some(AchievementRank::AAA)
    } else if path == "music_icon_aa"@ && music_icon_release(intl, ver) {
        Some(AchievementRank::AA)
    } else if path == "music_icon_a"@ && music_icon_release(intl, ver) {
        Some(AchievementRank::A)
    } else if path == "music_icon_bbb"@ && music_icon_release(intl, ver) {
        Some(AchievementRank::BBB)
    } else if path == "music_icon_bb"@ && music_icon_release(intl, ver) {
        Some(AchievementRank::BB)
    } else if path == "music_icon_b"@ && music_icon_release(intl, ver) {
        Some(AchievementRank::B)
    } else if path == "music_icon_c"@ && music_icon_release(intl, ver) {
        Some(AchievementRank::C)
    } else if path == "music_icon_d"@ && music_icon_release(intl, ver) {
        Some(AchievementRank::D)
    } else {
        None
    }
}

/// The rank an image shows is the rank its file names: each known image, in a
/// release it is accepted in, reads as its own value, and two images that
/// read as the same value are the same image.
pub proof fn lemma_achievement_rank_of_img_names(intl: bool, ver: Option<Seq<char>>)
    ensures
        music_icon_release(intl, ver) ==> achievement_rank_of_img(intl, "music_icon_sssp"@, ver) == Some(AchievementRank::SSSPlus),
        music_icon_release(intl, ver) ==> achievement_rank_of_img(intl, "music_icon_sss"@, ver) == Some(AchievementRank::SSS),
        music_icon_release(intl, ver) ==> achievement_rank_of_img(intl, "music_icon_ssp"@, ver) == Some(AchievementRank::SSPlus),
        music_icon_release(intl, ver) ==> achievement_rank_of_img(intl, "music_icon_ss"@, ver) == Some(AchievementRank::SS),
        music_icon_release(intl, ver) ==> achievement_rank_of_img(intl, "music_icon_sp"@, ver) == Some(AchievementRank::SPlus),
        music_icon_release(intl, ver) ==> achievement_rank_of_img(intl, "music_icon_s"@, ver) == Some(AchievementRank::S),
        music_icon_release(intl, ver) ==> achievement_rank_of_img(intl, "music_icon_aaa"@, ver) == Some(AchievementRank::AAA),
        music_icon_release(intl, ver) ==> achievement_rank_of_img(intl, "music_icon_aa"@, ver) == Some(AchievementRank::AA),
        music_icon_release(intl, ver) ==> achievement_rank_of_img(intl, "music_icon_a"@, ver) == Some(AchievementRank::A),
        music_icon_release(intl, ver) ==> achievement_rank_of_img(intl, "music_icon_bbb"@, ver) == Some(AchievementRank::BBB),
        music_icon_release(intl, ver) ==> achievement_rank_of_img(intl, "music_icon_bb"@, ver) == Some(AchievementRank::BB),
        music_icon_release(intl, ver) ==> achievement_rank_of_img(intl, "music_icon_b"@, ver) == Some(AchievementRank::B),
        music_icon_release(intl, ver) ==> achievement_rank_of_img(intl, "music_icon_c"@, ver) == Some(AchievementRank::C),
        music_icon_release(intl, ver) ==> achievement_rank_of_img(intl, "music_icon_d"@, ver) == Some(AchievementRank::D),
        forall|p: Seq<char>, q: Seq<char>|
            #[trigger] achievement_rank_of_img(intl, p, ver) is Some && achievement_rank_of_img(intl, p, ver) == #[trigger] achievement_rank_of_img(intl, q, ver) ==> p == q,
{
    reveal_strlit("music_icon_sssp");
    reveal_strlit("music_icon_sss");
    reveal_strlit("music_icon_ssp");
    reveal_strlit("music_icon_ss");
    reveal_strlit("music_icon_sp");
    reveal_strlit("music_icon_s");
    reveal_strlit("music_icon_aaa");
    reveal_strlit("music_icon_aa");
    reveal_strlit("music_icon_a");
    reveal_strlit("music_icon_bbb");
    reveal_strlit("music_icon_bb");
    reveal_strlit("music_icon_b");
    reveal_strlit("music_icon_c");
    reveal_strlit("music_icon_d");
    assert("music_icon_sss"@.len() != "music_icon_sssp"@.len());
    assert("music_icon_ssp"@.len() != "music_icon_sssp"@.len());
    assert("music_icon_ssp"@[13] != "music_icon_sss"@[13]);
    assert("music_icon_ss"@.len() != "music_icon_sssp"@.len());
    assert("music_icon_ss"@.len() != "music_icon_sss"@.len());
    assert("music_icon_ss"@.len() != "music_icon_ssp"@.len());
    assert("music_icon_sp"@.len() != "music_icon_sssp"@.len());
    assert("music_icon_sp"@.len() != "music_icon_sss"@.len());
    assert("music_icon_sp"@.len() != "music_icon_ssp"@.len());
    assert("music_icon_sp"@[12] != "music_icon_ss"@[12]);
    assert("music_icon_s"@.len() != "music_icon_sssp"@.len());
    assert("music_icon_s"@.len() != "music_icon_sss"@.len());
    assert("music_icon_s"@.len() != "music_icon_ssp"@.len());
    assert("music_icon_s"@.len() != "music_icon_ss"@.len());
    assert("music_icon_s"@.len() != "music_icon_sp"@.len());
    assert("music_icon_aaa"@.len() != "music_icon_sssp"@.len());
    assert("music_icon_aaa"@[11] != "music_icon_sss"@[11]);
    assert("music_icon_aaa"@[11] != "music_icon_ssp"@[11]);
    assert("music_icon_aaa"@.len() != "music_icon_ss"@.len());
    assert("music_icon_aaa"@.len() != "music_icon_sp"@.len());
    assert("music_icon_aaa"@.len() != "music_icon_s"@.len());
    assert("music_icon_aa"@.len() != "music_icon_sssp"@.len());
    assert("music_icon_aa"@.len() != "music_icon_sss"@.len());
    assert("music_icon_aa"@.len() != "music_icon_ssp"@.len());
    assert("music_icon_aa"@[11] != "music_icon_ss"@[11]);
    assert("music_icon_aa"@[11] != "music_icon_sp"@[11]);
    assert("music_icon_aa"@.len() != "music_icon_s"@.len());
    assert("music_icon_aa"@.len() != "music_icon_aaa"@.len());
    assert("music_icon_a"@.len() != "music_icon_sssp"@.len());
    assert("music_icon_a"@.len() != "music_icon_sss"@.len());
    assert("music_icon_a"@.len() != "music_icon_ssp"@.len());
    assert("music_icon_a"@.len() != "music_icon_ss"@.len());
    assert("music_icon_a"@.len() != "music_icon_sp"@.len());
    assert("music_icon_a"@[11] != "music_icon_s"@[11]);
    assert("music_icon_a"@.len() != "music_icon_aaa"@.len());
    assert("music_icon_a"@.len() != "music_icon_aa"@.len());
    assert("music_icon_bbb"@.len() != "music_icon_sssp"@.len());
    assert("music_icon_bbb"@[11] != "music_icon_sss"@[11]);
    assert("music_icon_bbb"@[11] != "music_icon_ssp"@[11]);
    assert("music_icon_bbb"@.len() != "music_icon_ss"@.len());
    assert("music_icon_bbb"@.len() != "music_icon_sp"@.len());
    assert("music_icon_bbb"@.len() != "music_icon_s"@.len());
    assert("music_icon_bbb"@[11] != "music_icon_aaa"@[11]);
    assert("music_icon_bbb"@.len() != "music_icon_aa"@.len());
    assert("music_icon_bbb"@.len() != "music_icon_a"@.len());
    assert("music_icon_bb"@.len() != "music_icon_sssp"@.len());
    assert("music_icon_bb"@.len() != "music_icon_sss"@.len());
    assert("music_icon_bb"@.len() != "music_icon_ssp"@.len());
    assert("music_icon_bb"@[11] != "music_icon_ss"@[11]);
    assert("music_icon_bb"@[11] != "music_icon_sp"@[11]);
    assert("music_icon_bb"@.len() != "music_icon_s"@.len());
    assert("music_icon_bb"@.len() != "music_icon_aaa"@.len());
    assert("music_icon_bb"@[11] != "music_icon_aa"@[11]);
    assert("music_icon_bb"@.len() != "music_icon_a"@.len());
    assert("music_icon_bb"@.len() != "music_icon_bbb"@.len());
    assert("music_icon_b"@.len() != "music_icon_sssp"@.len());
    assert("music_icon_b"@.len() != "music_icon_sss"@.len());
    assert("music_icon_b"@.len() != "music_icon_ssp"@.len());
    assert("music_icon_b"@.len() != "music_icon_ss"@.len());
    assert("music_icon_b"@.len() != "music_icon_sp"@.len());
    assert("music_icon_b"@[11] != "music_icon_s"@[11]);
    assert("music_icon_b"@.len() != "music_icon_aaa"@.len());
    assert("music_icon_b"@.len() != "music_icon_aa"@.len());
    assert("music_icon_b"@[11] != "music_icon_a"@[11]);
    assert("music_icon_b"@.len() != "music_icon_bbb"@.len());
    assert("music_icon_b"@.len() != "music_icon_bb"@.len());
    assert("music_icon_c"@.len() != "music_icon_sssp"@.len());
    assert("music_icon_c"@.len() != "music_icon_sss"@.len());
    assert("music_icon_c"@.len() != "music_icon_ssp"@.len());
    assert("music_icon_c"@.len() != "music_icon_ss"@.len());
    assert("music_icon_c"@.len() != "music_icon_sp"@.len());
    assert("music_icon_c"@[11] != "music_icon_s"@[11]);
    assert("music_icon_c"@.len() != "music_icon_aaa"@.len());
    assert("music_icon_c"@.len() != "music_icon_aa"@.len());
    assert("music_icon_c"@[11] != "music_icon_a"@[11]);
    assert("music_icon_c"@.len() != "music_icon_bbb"@.len());
    assert("music_icon_c"@.len() != "music_icon_bb"@.len());
    assert("music_icon_c"@[11] != "music_icon_b"@[11]);
    assert("music_icon_d"@.len() != "music_icon_sssp"@.len());
    assert("music_icon_d"@.len() != "music_icon_sss"@.len());
    assert("music_icon_d"@.len() != "music_icon_ssp"@.len());
    assert("music_icon_d"@.len() != "music_icon_ss"@.len());
    assert("music_icon_d"@.len() != "music_icon_sp"@.len());
    assert("music_icon_d"@[11] != "music_icon_s"@[11]);
    assert("music_icon_d"@.len() != "music_icon_aaa"@.len());
    assert("music_icon_d"@.len() != "music_icon_aa"@.len());
    assert("music_icon_d"@[11] != "music_icon_a"@[11]);
    assert("music_icon_d"@.len() != "music_icon_bbb"@.len());
    assert("music_icon_d"@.len() != "music_icon_bb"@.len());
    assert("music_icon_d"@[11] != "music_icon_b"@[11]);
    assert("music_icon_d"@[11] != "music_icon_c"@[11]);
}

/// The achievement rank that a score-list icon shows, from its address.
pub open spec fn achievement_rank_of_src(s: Seq<char>) -> Option<AchievementRank> {
    match img_src_parts(s) {
        Some(p) => achievement_rank_of_img(p.0, p.1, p.2),
        None => None,
    }
}

fn achievement_rank_img(intl: bool, path: &str, ver: Option<&str>) -> (r: Option<AchievementRank>)
    ensures
        r == achievement_rank_of_img(intl, path@, opt_view(ver)),
{
    let music_icon_release = is_music_icon_release(intl, ver);
    if music_icon_release && str_eq(path, "music_icon_sssp") {
        Some(AchievementRank::SSSPlus)
    } else if music_icon_release && str_eq(path, "music_icon_sss") {
        Some(AchievementRank::SSS)
    } else if music_icon_release && str_eq(path, "music_icon_ssp") {
        Some(AchievementRank::SSPlus)
    } else if music_icon_release && str_eq(path, "music_icon_ss") {
        Some(AchievementRank::SS)
    } else if music_icon_release && str_eq(path, "music_icon_sp") {
        Some(AchievementRank::SPlus)
    } else if music_icon_release && str_eq(path, "music_icon_s") {
        Some(AchievementRank::S)
    } else if music_icon_release && str_eq(path, "music_icon_aaa") {
        Some(AchievementRank::AAA)
    } else if music_icon_release && str_eq(path, "music_icon_aa") {
        Some(AchievementRank::AA)
    } else if music_icon_release && str_eq(path, "music_icon_a") {
        Some(AchievementRank::A)
    } else if music_icon_release && str_eq(path, "music_icon_bbb") {
        Some(AchievementRank::BBB)
    } else if music_icon_release && str_eq(path, "music_icon_bb") {
        Some(AchievementRank::BB)
    } else if music_icon_release && str_eq(path, "music_icon_b") {
        Some(AchievementRank::B)
    } else if music_icon_release && str_eq(path, "music_icon_c") {
        Some(AchievementRank::C)
    } else if music_icon_release && str_eq(path, "music_icon_d") {
        Some(AchievementRank::D)
    } else {
        None
    }
}

/// Reads the achievement rank that a score-list icon shows from the image's `src` attribute.
pub fn parse_achievement_rank(src: Option<&str>) -> (r: Result<AchievementRank, ImgSrcError>)
    ensures
        src is None ==> r == Err::<AchievementRank, ImgSrcError>(ImgSrcError::NoSrc),
        src matches Some(s) ==> match achievement_rank_of_src(s@) {
            Some(v) => r == Ok::<AchievementRank, ImgSrcError>(v),
            None => r matches Err(ImgSrcError::UnknownSrc(u)) && u@ == s@,
        },
{
    let s = match src {
        Some(s) => s,
        None => {
            return Err(ImgSrcError::NoSrc);
        },
    };
    let found = match split_img_src(s) {
        Some((intl, path, ver)) => achievement_rank_img(intl, path, ver),
        None => None,
    };
    match found {
        Some(v) => Ok(v),
        None => Err(ImgSrcError::UnknownSrc(s.to_owned())),
    }
}

/// The full-combo kind that a score-list icon shows, from the parts of its address.
pub open spec fn full_combo_of_img(intl: bool, path: Seq<char>, ver: Option<Seq<char>>) -> Option<FullComboKind> {
    if path == "music_icon_back"@ && music_icon_release(intl, ver) {
        Some(FullComboKind::Nothing)
    } else if path == "music_icon_fc"@ && music_icon_release(intl, ver) {
        Some(FullComboKind::FullCombo)
    } else if path == "music_icon_fcp"@ && music_icon_release(intl, ver) {
        Some(FullComboKind::FullComboPlus)
    } else if path == "music_icon_ap"@ && music_icon_release(intl, ver) {
        Some(FullComboKind::AllPerfect)
    } else if path == "music_icon_app"@ && music_icon_release(intl, ver) {
        Some(FullComboKind::AllPerfectPlus)
    } else {
        None
    }
}

/// The full-combo kind an image shows is the kind its file names: each known image, in a
/// release it is accepted in, reads as its own value, and two images that
/// read as the same value are the same image.
pub proof fn lemma_full_combo_of_img_names(intl: bool, ver: Option<Seq<char>>)
    ensures
        music_icon_release(intl, ver) ==> full_combo_of_img(intl, "music_icon_back"@, ver) == Some(FullComboKind::Nothing),
        music_icon_release(intl, ver) ==> full_combo_of_img(intl, "music_icon_fc"@, ver) == Some(FullComboKind::FullCombo),
        music_icon_release(intl, ver) ==> full_combo_of_img(intl, "music_icon_fcp"@, ver) == Some(FullComboKind::FullComboPlus),
        music_icon_release(intl, ver) ==> full_combo_of_img(intl, "music_icon_ap"@, ver) == Some(FullComboKind::AllPerfect),
        music_icon_release(intl, ver) ==> full_combo_of_img(intl, "music_icon_app"@, ver) == Some(FullComboKind::AllPerfectPlus),
        forall|p: Seq<char>, q: Seq<char>|
            #[trigger] full_combo_of_img(intl, p, ver) is Some && full_combo_of_img(intl, p, ver) == #[trigger] full_combo_of_img(intl, q, ver) ==> p == q,
{
    reveal_strlit("music_icon_back");
    reveal_strlit("music_icon_fc");
    reveal_strlit("music_icon_fcp");
    reveal_strlit("music_icon_ap");
    reveal_strlit("music_icon_app");
    assert("music_icon_fc"@.len() != "music_icon_back"@.len());
    assert("music_icon_fcp"@.len() != "music_icon_back"@.len());
    assert("music_icon_fcp"@.len() != "music_icon_fc"@.len());
    assert("music_icon_ap"@.len() != "music_icon_back"@.len());
    assert("music_icon_ap"@[11] != "music_icon_fc"@[11]);
    assert("music_icon_ap"@.len() != "music_icon_fcp"@.len());
    assert("music_icon_app"@.len() != "music_icon_back"@.len());
    assert("music_icon_app"@.len() != "music_icon_fc"@.len());
    assert("music_icon_app"@[11] != "music_icon_fcp"@[11]);
    assert("music_icon_app"@.len() != "music_icon_ap"@.len());
}

/// The full-combo kind that a score-list icon shows, from its address.
pub open spec fn full_combo_of_src(s: Seq<char>) -> Option<FullComboKind> {
    match img_src_parts(s) {
        Some(p) => full_combo_of_img(p.0, p.1, p.2),
        None => None,
    }
}

fn full_combo_img(intl: bool, path: &str, ver: Option<&str>) -> (r: Option<FullComboKind>)
    ensures
        r == full_combo_of_img(intl, path@, opt_view(ver)),
{
    let music_icon_release = is_music_icon_release(intl, ver);
    if music_icon_release && str_eq(path, "music_icon_back") {
        Some(FullComboKind::Nothing)
    } else if music_icon_release && str_eq(path, "music_icon_fc") {
        Some(FullComboKind::FullCombo)
    } else if music_icon_release && str_eq(path, "music_icon_fcp") {
        Some(FullComboKind::FullComboPlus)
    } else if music_icon_release && str_eq(path, "music_icon_ap") {
        Some(FullComboKind::AllPerfect)
    } else if music_icon_release && str_eq(path, "music_icon_app") {
        Some(FullComboKind::AllPerfectPlus)
    } else {
        None
    }
}

/// Reads the full-combo kind that a score-list icon shows from the image's `src` attribute.
pub fn parse_full_combo_img(src: Option<&str>) -> (r: Result<FullComboKind, ImgSrcError>)
    ensures
        src is None ==> r == Err::<FullComboKind, ImgSrcError>(ImgSrcError::NoSrc),
        src matches Some(s) ==> match full_combo_of_src(s@) {
            Some(v) => r == Ok::<FullComboKind, ImgSrcError>(v),
            None => r matches Err(ImgSrcError::UnknownSrc(u)) && u@ == s@,
        },
{
    let s = match src {
        Some(s) => s,
        None => {
            return Err(ImgSrcError::NoSrc);
        },
    };
    let found = match split_img_src(s) {
        Some((intl, path, ver)) => full_combo_img(intl, path, ver),
        None => None,
    };
    match found {
        Some(v) => Ok(v),
        None => Err(ImgSrcError::UnknownSrc(s.to_owned())),
    }
}

/// The full-sync kind that a score-list icon shows, from the parts of its address.
pub open spec fn full_sync_of_img(intl: bool, path: Seq<char>, ver: Option<Seq<char>>) -> Option<FullSyncKind> {
    if path == "music_icon_back"@ && music_icon_release(intl, ver) {
        Some(FullSyncKind::Nothing)
    } else if path == "music_icon_fs"@ && music_icon_release(intl, ver) {
        Some(FullSyncKind::FullSync)
    } else if path == "music_icon_fsp"@ && music_icon_release(intl, ver) {
        Some(FullSyncKind::FullSyncPlus)
    } else if path == "music_icon_fdx"@ && music_icon_release(intl, ver) {
        Some(FullSyncKind::FullSyncDx)
    } else if path == "music_icon_fdxp"@ && music_icon_release(intl, ver) {
        Some(FullSyncKind::FullSyncDxPlus)
    } else if path == "music_icon_sync"@ && music_sync_release(intl, ver) {
        Some(FullSyncKind::SyncPlay)
    } else {
        None
    }
}

/// The full-sync kind an image shows is the kind its file names: each known image, in a
/// release it is accepted in, reads as its own value, and two images that
/// read as the same value are the same image.
pub proof fn lemma_full_sync_of_img_names(intl: bool, ver: Option<Seq<char>>)
    ensures
        music_icon_release(intl, ver) ==> full_sync_of_img(intl, "music_icon_back"@, ver) == Some(FullSyncKind::Nothing),
        music_icon_release(intl, ver) ==> full_sync_of_img(intl, "music_icon_fs"@, ver) == Some(FullSyncKind::FullSync),
        music_icon_release(intl, ver) ==> full_sync_of_img(intl, "music_icon_fsp"@, ver) == Some(FullSyncKind::FullSyncPlus),
        music_icon_release(intl, ver) ==> full_sync_of_img(intl, "music_icon_fdx"@, ver) == Some(FullSyncKind::FullSyncDx),
        music_icon_release(intl, ver) ==> full_sync_of_img(intl, "music_icon_fdxp"@, ver) == Some(FullSyncKind::FullSyncDxPlus),
        music_sync_release(intl, ver) ==> full_sync_of_img(intl, "music_icon_sync"@, ver) == Some(FullSyncKind::SyncPlay),
        forall|p: Seq<char>, q: Seq<char>|
            #[trigger] full_sync_of_img(intl, p, ver) is Some && full_sync_of_img(intl, p, ver) == #[trigger] full_sync_of_img(intl, q, ver) ==> p == q,
{
    reveal_strlit("music_icon_back");
    reveal_strlit("music_icon_fs");
    reveal_strlit("music_icon_fsp");
    reveal_strlit("music_icon_fdx");
    reveal_strlit("music_icon_fdxp");
    reveal_strlit("music_icon_sync");
    assert("music_icon_fs"@.len() != "music_icon_back"@.len());
    assert("music_icon_fsp"@.len() != "music_icon_back"@.len());
    assert("music_icon_fsp"@.len() != "music_icon_fs"@.len());
    assert("music_icon_fdx"@.len() != "music_icon_back"@.len());
    assert("music_icon_fdx"@.len() != "music_icon_fs"@.len());
    assert("music_icon_fdx"@[12] != "music_icon_fsp"@[12]);
    assert("music_icon_fdxp"@[11] != "music_icon_back"@[11]);
    assert("music_icon_fdxp"@.len() != "music_icon_fs"@.len());
    assert("music_icon_fdxp"@.len() != "music_icon_fsp"@.len());
    assert("music_icon_fdxp"@.len() != "music_icon_fdx"@.len());
    assert("music_icon_sync"@[11] != "music_icon_back"@[11]);
    assert("music_icon_sync"@.len() != "music_icon_fs"@.len());
    assert("music_icon_sync"@.len() != "music_icon_fsp"@.len());
    assert("music_icon_sync"@.len() != "music_icon_fdx"@.len());
    assert("music_icon_sync"@[11] != "music_icon_fdxp"@[11]);
}

/// The full-sync kind that a score-list icon shows, from its address.
pub open spec fn full_sync_of_src(s: Seq<char>) -> Option<FullSyncKind> {
    match img_src_parts(s) {
        Some(p) => full_sync_of_img(p.0, p.1, p.2),
        None => None,
    }
}

fn full_sync_img(intl: bool, path: &str, ver: Option<&str>) -> (r: Option<FullSyncKind>)
    ensures
        r == full_sync_of_img(intl, path@, opt_view(ver)),
{
    let music_icon_release = is_music_icon_release(intl, ver);
    let music_sync_release = is_music_sync_release(intl, ver);
    if music_icon_release && str_eq(path, "music_icon_back") {
        Some(FullSyncKind::Nothing)
    } else if music_icon_release && str_eq(path, "music_icon_fs") {
        Some(FullSyncKind::FullSync)
    } else if music_icon_release && str_eq(path, "music_icon_fsp") {
        Some(FullSyncKind::FullSyncPlus)
    } else if music_icon_release && str_eq(path, "music_icon_fdx") {
        Some(FullSyncKind::FullSyncDx)
    } else if music_icon_release && str_eq(path, "music_icon_fdxp") {
        Some(FullSyncKind::FullSyncDxPlus)
    } else if music_sync_release && str_eq(path, "music_icon_sync") {
        Some(FullSyncKind::SyncPlay)
    } else {
        None
    }
}

/// Reads the full-sync kind that a score-list icon shows from the image's `src` attribute.
pub fn parse_full_sync_img(src: Option<&str>) -> (r: Result<FullSyncKind, ImgSrcError>)
    ensures
        src is None ==> r == Err::<FullSyncKind, ImgSrcError>(ImgSrcError::NoSrc),
        src matches Some(s) ==> match full_sync_of_src(s@) {
            Some(v) => r == Ok::<FullSyncKind, ImgSrcError>(v),
            None => r matches Err(ImgSrcError::UnknownSrc(u)) && u@ == s@,
        },
{
    let s = match src {
        Some(s) => s,
        None => {
            return Err(ImgSrcError::NoSrc);
        },
    };
    let found = match split_img_src(s) {
        Some((intl, path, ver)) => full_sync_img(intl, path, ver),
        None => None,
    };
    match found {
        Some(v) => Ok(v),
        None => Err(ImgSrcError::UnknownSrc(s.to_owned())),
    }
}

} // verus!

verus! {

/// Why a score list entry could not be read.
#[derive(Clone, PartialEq, Eq, Debug)]
pub enum ScoreEntryError {
    /// No generation image, or one both inside and outside the entry.
    GenerationImage,
    /// A generation image of neither generation.
    UnknownGeneration(String),
    /// Neither three rank images nor none.
    ImageCount(usize),
    /// An image that could not be read.
    Image(ImgSrcError),
    /// Some of achievement, DX score and rank images are there, and some not.
    InconsistentResult,
}

/// The value by which the score list names a chart.
#[derive(Clone, PartialEq, Eq, Hash, Debug)]
pub struct ScoreIdx(pub String);

/// The result shown for a chart that has been played.
#[derive(Clone, Copy, PartialEq, Eq, Structural, Debug)]
pub struct ScoreResult {
    pub achievement: AchievementValue,
    pub rank: AchievementRank,
    pub deluxscore: ValueWithMax<u32>,
    pub full_combo_kind: FullComboKind,
    pub full_sync_kind: FullSyncKind,
}

/// An entry of the score list.
#[derive(Clone, Debug)]
pub struct ScoreEntry {
    pub metadata: ScoreMetadata,
    pub song_name: SongName,
    pub level: ScoreLevel,
    pub result: Option<ScoreResult>,
    pub idx: ScoreIdx,
}

/// The generation that the address of a generation image ends in.
pub open spec fn generation_of_suffix(s: Seq<char>) -> Option<ScoreGeneration> {
    if "music_standard.png"@.len() <= s.len() && s.skip(s.len() - "music_standard.png"@.len())
        == "music_standard.png"@ {
        Some(ScoreGeneration::Standard)
    } else if "music_dx.png"@.len() <= s.len() && s.skip(s.len() - "music_dx.png"@.len())
        == "music_dx.png"@ {
        Some(ScoreGeneration::Deluxe)
    } else {
        None
    }
}

/// Reads the generation of an entry from the `src` of the generation image
/// inside the entry and of the one after it; exactly one must be there.
pub fn parse_score_generation(inside: Option<&str>, outside: Option<&str>) -> (r: Result<
    ScoreGeneration,
    ScoreEntryError,
>)
    ensures
        match (inside, outside) {
            (Some(s), None) | (None, Some(s)) => match generation_of_suffix(s@) {
                Some(g) => r == Ok::<ScoreGeneration, ScoreEntryError>(g),
                None => r matches Err(ScoreEntryError::UnknownGeneration(u)) && u@ == s@,
            },
            _ => r == Err::<ScoreGeneration, ScoreEntryError>(ScoreEntryError::GenerationImage),
        },
{
    let s = match (inside, outside) {
        (Some(s), None) => s,
        (None, Some(s)) => s,
        _ => {
            return Err(ScoreEntryError::GenerationImage);
        },
    };
    if ends_with(s, "music_standard.png") {
        Ok(ScoreGeneration::Standard)
    } else if ends_with(s, "music_dx.png") {
        Ok(ScoreGeneration::Deluxe)
    } else {
        Err(ScoreEntryError::UnknownGeneration(s.to_owned()))
    }
}

pub open spec fn opt_string_view(o: Option<String>) -> Option<Seq<char>> {
    match o {
        Some(s) => Some(s@),
        None => None,
    }
}

/// What reading an image with `f` finds, when its `src` is there.
pub open spec fn img_read<T>(src: Option<Seq<char>>, f: spec_fn(Seq<char>) -> Option<T>) -> Option<
    T,
> {
    match src {
        Some(s) => f(s),
        None => None,
    }
}

/// The error of reading an image with the given `src`, when nothing is found.
pub open spec fn img_error(src: Option<Seq<char>>, e: ImgSrcError) -> bool {
    match src {
        None => e == ImgSrcError::NoSrc,
        Some(s) => e matches ImgSrcError::UnknownSrc(u) && u@ == s,
    }
}

fn opt_as_str(o: &Option<String>) -> (r: Option<&str>)
    ensures
        opt_view(r) == opt_string_view(*o),
{
    match o {
        Some(s) => Some(s.as_str()),
        None => None,
    }
}

/// Reads the rank images of an entry, given the `src` of each in page
/// order: full sync, full combo and rank; or none at all. The full-combo
/// image is read first, then the full-sync one, then the rank.
pub fn parse_score_ranks(srcs: &Vec<Option<String>>) -> (r: Result<
    Option<(FullComboKind, FullSyncKind, AchievementRank)>,
    ScoreEntryError,
>)
    ensures
        srcs@.len() == 0 ==> r == Ok::<
            Option<(FullComboKind, FullSyncKind, AchievementRank)>,
            ScoreEntryError,
        >(None),
        srcs@.len() != 0 && srcs@.len() != 3 ==> r == Err::<
            Option<(FullComboKind, FullSyncKind, AchievementRank)>,
            ScoreEntryError,
        >(ScoreEntryError::ImageCount(srcs@.len() as usize)),
        srcs@.len() == 3 ==> {
            let fc = img_read(opt_string_view(srcs@[1]), |s: Seq<char>| full_combo_of_src(s));
            let fs = img_read(opt_string_view(srcs@[0]), |s: Seq<char>| full_sync_of_src(s));
            let rk = img_read(opt_string_view(srcs@[2]), |s: Seq<char>| achievement_rank_of_src(s));
            match (fc, fs, rk) {
                (Some(a), Some(b), Some(c)) => r == Ok::<
                    Option<(FullComboKind, FullSyncKind, AchievementRank)>,
                    ScoreEntryError,
                >(Some((a, b, c))),
                (None, _, _) => r matches Err(ScoreEntryError::Image(e)) && img_error(
                    opt_string_view(srcs@[1]),
                    e,
                ),
                (Some(_), None, _) => r matches Err(ScoreEntryError::Image(e)) && img_error(
                    opt_string_view(srcs@[0]),
                    e,
                ),
                (Some(_), Some(_), None) => r matches Err(ScoreEntryError::Image(e)) && img_error(
                    opt_string_view(srcs@[2]),
                    e,
                ),
            }
        },
{
    let n = srcs.len();
    if n == 0 {
        return Ok(None);
    }
    if n != 3 {
        return Err(ScoreEntryError::ImageCount(n));
    }
    let fc = match parse_full_combo_img(opt_as_str(&srcs[1])) {
        Ok(v) => v,
        Err(e) => {
            return Err(ScoreEntryError::Image(e));
        },
    };
    let fs = match parse_full_sync_img(opt_as_str(&srcs[0])) {
        Ok(v) => v,
        Err(e) => {
            return Err(ScoreEntryError::Image(e));
        },
    };
    let rk = match parse_achievement_rank(opt_as_str(&srcs[2])) {
        Ok(v) => v,
        Err(e) => {
            return Err(ScoreEntryError::Image(e));
        },
    };
    Ok(Some((fc, fs, rk)))
}

/// Puts the result of an entry together: all of achievement, DX score and
/// rank images, or none of them.
pub fn combine_score_result(
    achievement: Option<AchievementValue>,
    deluxscore: Option<ValueWithMax<u32>>,
    ranks: Option<(FullComboKind, FullSyncKind, AchievementRank)>,
) -> (r: Result<Option<ScoreResult>, ScoreEntryError>)
    ensures
        match (achievement, deluxscore, ranks) {
            (Some(a), Some(d), Some((c, s, k))) => r == Ok::<
                Option<ScoreResult>,
                ScoreEntryError,
            >(
                Some(
                    ScoreResult {
                        achievement: a,
                        rank: k,
                        deluxscore: d,
                        full_combo_kind: c,
                        full_sync_kind: s,
                    },
                ),
            ),
            (None, None, None) => r == Ok::<Option<ScoreResult>, ScoreEntryError>(None),
            _ => r == Err::<Option<ScoreResult>, ScoreEntryError>(
                ScoreEntryError::InconsistentResult,
            ),
        },
{
    match (achievement, deluxscore, ranks) {
        (Some(a), Some(d), Some((c, s, k))) => Ok(
            Some(
                ScoreResult {
                    achievement: a,
                    rank: k,
                    deluxscore: d,
                    full_combo_kind: c,
                    full_sync_kind: s,
                },
            ),
        ),
        (None, None, None) => Ok(None),
        _ => Err(ScoreEntryError::InconsistentResult),
    }
}

} // verus!
