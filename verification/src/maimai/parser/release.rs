use vstd::prelude::*;

use crate::maimai::parser::img_src::opt_view;
use crate::text::str_eq;

verus! {

/// An address that names no release, on either site.
pub open spec fn plain_release(intl: bool, ver: Option<Seq<char>>) -> bool {
    match ver {
        None => true,
        Some(_) => false,
    }
}

pub fn is_plain_release(intl: bool, ver: Option<&str>) -> (r: bool)
    ensures
        r == plain_release(intl, opt_view(ver)),
{
    match ver {
        None => true,
        Some(_) => false,
    }
}

/// The releases under which the play-record images are published.
pub open spec fn playlog_release(intl: bool, ver: Option<Seq<char>>) -> bool {
    match ver {
        None => false,
        Some(v) => if intl {
            v == "1.35"@
        } else {
            v == "1.15"@
            || v == "1.17"@
            || v == "1.20"@
            || v == "1.25"@
            || v == "1.30"@
            || v == "1.35"@
            || v == "1.40"@
            || v == "1.45"@
            || v == "1.50"@
        },
    }
}

/// The releases `playlog_release` accepts, and no others: on the Japanese site
/// 1.15, 1.17, 1.20, 1.25, 1.30, 1.35, 1.40, 1.45, 1.50; on the international site 1.35; an address
/// without a release is not accepted.
pub proof fn lemma_playlog_release_versions(v: Seq<char>)
    ensures
        playlog_release(false, Some(seq!['1', '.', '1', '5'])),
        playlog_release(false, Some(seq!['1', '.', '1', '7'])),
        playlog_release(false, Some(seq!['1', '.', '2', '0'])),
        playlog_release(false, Some(seq!['1', '.', '2', '5'])),
        playlog_release(false, Some(seq!['1', '.', '3', '0'])),
        playlog_release(false, Some(seq!['1', '.', '3', '5'])),
        playlog_release(false, Some(seq!['1', '.', '4', '0'])),
        playlog_release(false, Some(seq!['1', '.', '4', '5'])),
        playlog_release(false, Some(seq!['1', '.', '5', '0'])),
        playlog_release(true, Some(seq!['1', '.', '3', '5'])),
        playlog_release(false, Some(v)) ==> v == seq!['1', '.', '1', '5'] || v == seq!['1', '.', '1', '7'] || v == seq!['1', '.', '2', '0'] || v == seq!['1', '.', '2', '5'] || v == seq!['1', '.', '3', '0'] || v == seq!['1', '.', '3', '5'] || v == seq!['1', '.', '4', '0'] || v == seq!['1', '.', '4', '5'] || v == seq!['1', '.', '5', '0'],
        playlog_release(true, Some(v)) ==> v == seq!['1', '.', '3', '5'],
        playlog_release(false, None) == false,
        playlog_release(true, None) == false,
{
    reveal_strlit("1.15");
    assert("1.15"@ =~= seq!['1', '.', '1', '5']);
    reveal_strlit("1.17");
    assert("1.17"@ =~= seq!['1', '.', '1', '7']);
    reveal_strlit("1.20");
    assert("1.20"@ =~= seq!['1', '.', '2', '0']);
    reveal_strlit("1.25");
    assert("1.25"@ =~= seq!['1', '.', '2', '5']);
    reveal_strlit("1.30");
    assert("1.30"@ =~= seq!['1', '.', '3', '0']);
    reveal_strlit("1.35");
    assert("1.35"@ =~= seq!['1', '.', '3', '5']);
    reveal_strlit("1.40");
    assert("1.40"@ =~= seq!['1', '.', '4', '0']);
    reveal_strlit("1.45");
    assert("1.45"@ =~= seq!['1', '.', '4', '5']);
    reveal_strlit("1.50");
    assert("1.50"@ =~= seq!['1', '.', '5', '0']);
}

pub fn is_playlog_release(intl: bool, ver: Option<&str>) -> (r: bool)
    ensures
        r == playlog_release(intl, opt_view(ver)),
{
    match ver {
        None => false,
        Some(v) => if intl {
            str_eq(v, "1.35")
        } else {
            str_eq(v, "1.15")
            || str_eq(v, "1.17")
            || str_eq(v, "1.20")
            || str_eq(v, "1.25")
            || str_eq(v, "1.30")
            || str_eq(v, "1.35")
            || str_eq(v, "1.40")
            || str_eq(v, "1.45")
            || str_eq(v, "1.50")
        },
    }
}

/// The releases of the Japanese site up to 1.35.
pub open spec fn early_playlog_release(intl: bool, ver: Option<Seq<char>>) -> bool {
    match ver {
        None => false,
        Some(v) => !intl && (
            v == "1.15"@
            || v == "1.17"@
            || v == "1.20"@
            || v == "1.25"@
            || v == "1.30"@
            || v == "1.35"@
        ),
    }
}

/// The releases `early_playlog_release` accepts, and no others: on the Japanese site
/// 1.15, 1.17, 1.20, 1.25, 1.30, 1.35; on the international site none; an address
/// without a release is not accepted.
pub proof fn lemma_early_playlog_release_versions(v: Seq<char>)
    ensures
        early_playlog_release(false, Some(seq!['1', '.', '1', '5'])),
        early_playlog_release(false, Some(seq!['1', '.', '1', '7'])),
        early_playlog_release(false, Some(seq!['1', '.', '2', '0'])),
        early_playlog_release(false, Some(seq!['1', '.', '2', '5'])),
        early_playlog_release(false, Some(seq!['1', '.', '3', '0'])),
        early_playlog_release(false, Some(seq!['1', '.', '3', '5'])),
        early_playlog_release(false, Some(v)) ==> v == seq!['1', '.', '1', '5'] || v == seq!['1', '.', '1', '7'] || v == seq!['1', '.', '2', '0'] || v == seq!['1', '.', '2', '5'] || v == seq!['1', '.', '3', '0'] || v == seq!['1', '.', '3', '5'],
        early_playlog_release(true, Some(v)) ==> false,
        early_playlog_release(false, None) == false,
        early_playlog_release(true, None) == false,
{
    reveal_strlit("1.15");
    assert("1.15"@ =~= seq!['1', '.', '1', '5']);
    reveal_strlit("1.17");
    assert("1.17"@ =~= seq!['1', '.', '1', '7']);
    reveal_strlit("1.20");
    assert("1.20"@ =~= seq!['1', '.', '2', '0']);
    reveal_strlit("1.25");
    assert("1.25"@ =~= seq!['1', '.', '2', '5']);
    reveal_strlit("1.30");
    assert("1.30"@ =~= seq!['1', '.', '3', '0']);
    reveal_strlit("1.35");
    assert("1.35"@ =~= seq!['1', '.', '3', '5']);
}

pub fn is_early_playlog_release(intl: bool, ver: Option<&str>) -> (r: bool)
    ensures
        r == early_playlog_release(intl, opt_view(ver)),
{
    match ver {
        None => false,
        Some(v) => !intl && (
            str_eq(v, "1.15")
            || str_eq(v, "1.17")
            || str_eq(v, "1.20")
            || str_eq(v, "1.25")
            || str_eq(v, "1.30")
            || str_eq(v, "1.35")
        ),
    }
}

/// The releases with the sync-play images: the Japanese site from 1.40, the international one at 1.35.
pub open spec fn sync_playlog_release(intl: bool, ver: Option<Seq<char>>) -> bool {
    match ver {
        None => false,
        Some(v) => if intl {
            v == "1.35"@
        } else {
            v == "1.40"@
            || v == "1.45"@
            || v == "1.50"@
        },
    }
}

/// The releases `sync_playlog_release` accepts, and no others: on the Japanese site
/// 1.40, 1.45, 1.50; on the international site 1.35; an address
/// without a release is not accepted.
pub proof fn lemma_sync_playlog_release_versions(v: Seq<char>)
    ensures
        sync_playlog_release(false, Some(seq!['1', '.', '4', '0'])),
        sync_playlog_release(false, Some(seq!['1', '.', '4', '5'])),
        sync_playlog_release(false, Some(seq!['1', '.', '5', '0'])),
        sync_playlog_release(true, Some(seq!['1', '.', '3', '5'])),
        sync_playlog_release(false, Some(v)) ==> v == seq!['1', '.', '4', '0'] || v == seq!['1', '.', '4', '5'] || v == seq!['1', '.', '5', '0'],
        sync_playlog_release(true, Some(v)) ==> v == seq!['1', '.', '3', '5'],
        sync_playlog_release(false, None) == false,
        sync_playlog_release(true, None) == false,
{
    reveal_strlit("1.35");
    assert("1.35"@ =~= seq!['1', '.', '3', '5']);
    reveal_strlit("1.40");
    assert("1.40"@ =~= seq!['1', '.', '4', '0']);
    reveal_strlit("1.45");
    assert("1.45"@ =~= seq!['1', '.', '4', '5']);
    reveal_strlit("1.50");
    assert("1.50"@ =~= seq!['1', '.', '5', '0']);
}

pub fn is_sync_playlog_release(intl: bool, ver: Option<&str>) -> (r: bool)
    ensures
        r == sync_playlog_release(intl, opt_view(ver)),
{
    match ver {
        None => false,
        Some(v) => if intl {
            str_eq(v, "1.35")
        } else {
            str_eq(v, "1.40")
            || str_eq(v, "1.45")
            || str_eq(v, "1.50")
        },
    }
}

/// The releases of the rating frame images, and the Japanese address without a release.
pub open spec fn rating_base_release(intl: bool, ver: Option<Seq<char>>) -> bool {
    match ver {
        None => !intl,
        Some(v) => if intl {
            v == "1.35"@
        } else {
            v == "1.17"@
            || v == "1.20"@
            || v == "1.25"@
            || v == "1.30"@
            || v == "1.35"@
            || v == "1.40"@
            || v == "1.45"@
            || v == "1.50"@
        },
    }
}

/// The releases `rating_base_release` accepts, and no others: on the Japanese site
/// 1.17, 1.20, 1.25, 1.30, 1.35, 1.40, 1.45, 1.50; on the international site 1.35; an address
/// without a release is accepted on the Japanese site only.
pub proof fn lemma_rating_base_release_versions(v: Seq<char>)
    ensures
        rating_base_release(false, Some(seq!['1', '.', '1', '7'])),
        rating_base_release(false, Some(seq!['1', '.', '2', '0'])),
        rating_base_release(false, Some(seq!['1', '.', '2', '5'])),
        rating_base_release(false, Some(seq!['1', '.', '3', '0'])),
        rating_base_release(false, Some(seq!['1', '.', '3', '5'])),
        rating_base_release(false, Some(seq!['1', '.', '4', '0'])),
        rating_base_release(false, Some(seq!['1', '.', '4', '5'])),
        rating_base_release(false, Some(seq!['1', '.', '5', '0'])),
        rating_base_release(true, Some(seq!['1', '.', '3', '5'])),
        rating_base_release(false, Some(v)) ==> v == seq!['1', '.', '1', '7'] || v == seq!['1', '.', '2', '0'] || v == seq!['1', '.', '2', '5'] || v == seq!['1', '.', '3', '0'] || v == seq!['1', '.', '3', '5'] || v == seq!['1', '.', '4', '0'] || v == seq!['1', '.', '4', '5'] || v == seq!['1', '.', '5', '0'],
        rating_base_release(true, Some(v)) ==> v == seq!['1', '.', '3', '5'],
        rating_base_release(false, None) == true,
        rating_base_release(true, None) == false,
{
    reveal_strlit("1.17");
    assert("1.17"@ =~= seq!['1', '.', '1', '7']);
    reveal_strlit("1.20");
    assert("1.20"@ =~= seq!['1', '.', '2', '0']);
    reveal_strlit("1.25");
    assert("1.25"@ =~= seq!['1', '.', '2', '5']);
    reveal_strlit("1.30");
    assert("1.30"@ =~= seq!['1', '.', '3', '0']);
    reveal_strlit("1.35");
    assert("1.35"@ =~= seq!['1', '.', '3', '5']);
    reveal_strlit("1.40");
    assert("1.40"@ =~= seq!['1', '.', '4', '0']);
    reveal_strlit("1.45");
    assert("1.45"@ =~= seq!['1', '.', '4', '5']);
    reveal_strlit("1.50");
    assert("1.50"@ =~= seq!['1', '.', '5', '0']);
}

pub fn is_rating_base_release(intl: bool, ver: Option<&str>) -> (r: bool)
    ensures
        r == rating_base_release(intl, opt_view(ver)),
{
    match ver {
        None => !intl,
        Some(v) => if intl {
            str_eq(v, "1.35")
        } else {
            str_eq(v, "1.17")
            || str_eq(v, "1.20")
            || str_eq(v, "1.25")
            || str_eq(v, "1.30")
            || str_eq(v, "1.35")
            || str_eq(v, "1.40")
            || str_eq(v, "1.45")
            || str_eq(v, "1.50")
        },
    }
}

/// The releases with the platinum rating frame.
pub open spec fn rating_platinum_release(intl: bool, ver: Option<Seq<char>>) -> bool {
    match ver {
        None => false,
        Some(v) => if intl {
            v == "1.35"@
        } else {
            v == "1.17"@
            || v == "1.20"@
            || v == "1.25"@
            || v == "1.30"@
            || v == "1.35"@
            || v == "1.40"@
            || v == "1.45"@
            || v == "1.50"@
        },
    }
}

/// The releases `rating_platinum_release` accepts, and no others: on the Japanese site
/// 1.17, 1.20, 1.25, 1.30, 1.35, 1.40, 1.45, 1.50; on the international site 1.35; an address
/// without a release is not accepted.
pub proof fn lemma_rating_platinum_release_versions(v: Seq<char>)
    ensures
        rating_platinum_release(false, Some(seq!['1', '.', '1', '7'])),
        rating_platinum_release(false, Some(seq!['1', '.', '2', '0'])),
        rating_platinum_release(false, Some(seq!['1', '.', '2', '5'])),
        rating_platinum_release(false, Some(seq!['1', '.', '3', '0'])),
        rating_platinum_release(false, Some(seq!['1', '.', '3', '5'])),
        rating_platinum_release(false, Some(seq!['1', '.', '4', '0'])),
        rating_platinum_release(false, Some(seq!['1', '.', '4', '5'])),
        rating_platinum_release(false, Some(seq!['1', '.', '5', '0'])),
        rating_platinum_release(true, Some(seq!['1', '.', '3', '5'])),
        rating_platinum_release(false, Some(v)) ==> v == seq!['1', '.', '1', '7'] || v == seq!['1', '.', '2', '0'] || v == seq!['1', '.', '2', '5'] || v == seq!['1', '.', '3', '0'] || v == seq!['1', '.', '3', '5'] || v == seq!['1', '.', '4', '0'] || v == seq!['1', '.', '4', '5'] || v == seq!['1', '.', '5', '0'],
        rating_platinum_release(true, Some(v)) ==> v == seq!['1', '.', '3', '5'],
        rating_platinum_release(false, None) == false,
        rating_platinum_release(true, None) == false,
{
    reveal_strlit("1.17");
    assert("1.17"@ =~= seq!['1', '.', '1', '7']);
    reveal_strlit("1.20");
    assert("1.20"@ =~= seq!['1', '.', '2', '0']);
    reveal_strlit("1.25");
    assert("1.25"@ =~= seq!['1', '.', '2', '5']);
    reveal_strlit("1.30");
    assert("1.30"@ =~= seq!['1', '.', '3', '0']);
    reveal_strlit("1.35");
    assert("1.35"@ =~= seq!['1', '.', '3', '5']);
    reveal_strlit("1.40");
    assert("1.40"@ =~= seq!['1', '.', '4', '0']);
    reveal_strlit("1.45");
    assert("1.45"@ =~= seq!['1', '.', '4', '5']);
    reveal_strlit("1.50");
    assert("1.50"@ =~= seq!['1', '.', '5', '0']);
}

pub fn is_rating_platinum_release(intl: bool, ver: Option<&str>) -> (r: bool)
    ensures
        r == rating_platinum_release(intl, opt_view(ver)),
{
    match ver {
        None => false,
        Some(v) => if intl {
            str_eq(v, "1.35")
        } else {
            str_eq(v, "1.17")
            || str_eq(v, "1.20")
            || str_eq(v, "1.25")
            || str_eq(v, "1.30")
            || str_eq(v, "1.35")
            || str_eq(v, "1.40")
            || str_eq(v, "1.45")
            || str_eq(v, "1.50")
        },
    }
}

/// The releases of the Japanese score-list icons.
pub open spec fn music_icon_release(intl: bool, ver: Option<Seq<char>>) -> bool {
    match ver {
        None => false,
        Some(v) => !intl && (
            v == "1.35"@
            || v == "1.50"@
            || v == "1.55"@
            || v == "1.59"@
            || v == "1.60"@
        ),
    }
}

/// The releases `music_icon_release` accepts, and no others: on the Japanese site
/// 1.35, 1.50, 1.55, 1.59, 1.60; on the international site none; an address
/// without a release is not accepted.
pub proof fn lemma_music_icon_release_versions(v: Seq<char>)
    ensures
        music_icon_release(false, Some(seq!['1', '.', '3', '5'])),
        music_icon_release(false, Some(seq!['1', '.', '5', '0'])),
        music_icon_release(false, Some(seq!['1', '.', '5', '5'])),
        music_icon_release(false, Some(seq!['1', '.', '5', '9'])),
        music_icon_release(false, Some(seq!['1', '.', '6', '0'])),
        music_icon_release(false, Some(v)) ==> v == seq!['1', '.', '3', '5'] || v == seq!['1', '.', '5', '0'] || v == seq!['1', '.', '5', '5'] || v == seq!['1', '.', '5', '9'] || v == seq!['1', '.', '6', '0'],
        music_icon_release(true, Some(v)) ==> false,
        music_icon_release(false, None) == false,
        music_icon_release(true, None) == false,
{
    reveal_strlit("1.35");
    assert("1.35"@ =~= seq!['1', '.', '3', '5']);
    reveal_strlit("1.50");
    assert("1.50"@ =~= seq!['1', '.', '5', '0']);
    reveal_strlit("1.55");
    assert("1.55"@ =~= seq!['1', '.', '5', '5']);
    reveal_strlit("1.59");
    assert("1.59"@ =~= seq!['1', '.', '5', '9']);
    reveal_strlit("1.60");
    assert("1.60"@ =~= seq!['1', '.', '6', '0']);
}

pub fn is_music_icon_release(intl: bool, ver: Option<&str>) -> (r: bool)
    ensures
        r == music_icon_release(intl, opt_view(ver)),
{
    match ver {
        None => false,
        Some(v) => !intl && (
            str_eq(v, "1.35")
            || str_eq(v, "1.50")
            || str_eq(v, "1.55")
            || str_eq(v, "1.59")
            || str_eq(v, "1.60")
        ),
    }
}

/// The releases of the Japanese score-list icons with the sync-play icon.
pub open spec fn music_sync_release(intl: bool, ver: Option<Seq<char>>) -> bool {
    match ver {
        None => false,
        Some(v) => !intl && (
            v == "1.50"@
            || v == "1.55"@
            || v == "1.59"@
            || v == "1.60"@
        ),
    }
}

/// The releases `music_sync_release` accepts, and no others: on the Japanese site
/// 1.50, 1.55, 1.59, 1.60; on the international site none; an address
/// without a release is not accepted.
pub proof fn lemma_music_sync_release_versions(v: Seq<char>)
    ensures
        music_sync_release(false, Some(seq!['1', '.', '5', '0'])),
        music_sync_release(false, Some(seq!['1', '.', '5', '5'])),
        music_sync_release(false, Some(seq!['1', '.', '5', '9'])),
        music_sync_release(false, Some(seq!['1', '.', '6', '0'])),
        music_sync_release(false, Some(v)) ==> v == seq!['1', '.', '5', '0'] || v == seq!['1', '.', '5', '5'] || v == seq!['1', '.', '5', '9'] || v == seq!['1', '.', '6', '0'],
        music_sync_release(true, Some(v)) ==> false,
        music_sync_release(false, None) == false,
        music_sync_release(true, None) == false,
{
    reveal_strlit("1.50");
    assert("1.50"@ =~= seq!['1', '.', '5', '0']);
    reveal_strlit("1.55");
    assert("1.55"@ =~= seq!['1', '.', '5', '5']);
    reveal_strlit("1.59");
    assert("1.59"@ =~= seq!['1', '.', '5', '9']);
    reveal_strlit("1.60");
    assert("1.60"@ =~= seq!['1', '.', '6', '0']);
}

pub fn is_music_sync_release(intl: bool, ver: Option<&str>) -> (r: bool)
    ensures
        r == music_sync_release(intl, opt_view(ver)),
{
    match ver {
        None => false,
        Some(v) => !intl && (
            str_eq(v, "1.50")
            || str_eq(v, "1.55")
            || str_eq(v, "1.59")
            || str_eq(v, "1.60")
        ),
    }
}

} // verus!
