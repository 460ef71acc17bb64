use vstd::prelude::*;

use crate::cookie_store::AimeIdx;
use crate::maimai::schema::latest::{idx_text, Idx};
use crate::text::{dec, push_decimal, push_str, str_eq};

verus! {

/// The official maimai DX site.
pub struct Maimai;

/// The official ONGEKI site.
pub struct Ongeki;

impl Maimai {
    /// The page of one play record.
    pub fn play_log_detail_url(idx: Idx) -> (r: String)
        ensures
            r@ == "https://maimaidx.jp/maimai-mobile/record/playlogDetail/?idx="@ + idx_text(idx),
    {
        let mut r = String::new();
        push_str(&mut r, "https://maimaidx.jp/maimai-mobile/record/playlogDetail/?idx=");
        let t = idx.to_string();
        push_str(&mut r, t.as_str());
        r
    }

    /// The request that picks one of the Aime cards of the account.
    pub fn select_aime_list_url(aime_idx: AimeIdx) -> (r: String)
        ensures
            r@ == "https://maimaidx.jp/maimai-mobile/aimeList/submit/?idx="@ + dec(aime_idx.0 as nat),
    {
        let mut r = String::new();
        push_str(&mut r, "https://maimaidx.jp/maimai-mobile/aimeList/submit/?idx=");
        push_decimal(&mut r, aime_idx.0 as u64);
        r
    }

    /// A request for a play record that redirects to this path finds no
    /// such record.
    pub fn play_log_detail_not_found(location_path: &str) -> (r: bool)
        ensures
            r == (location_path@ == "/maimai-mobile/record/"@),
    {
        str_eq(location_path, "/maimai-mobile/record/")
    }
}

impl Ongeki {
    /// The request that picks one of the Aime cards of the account.
    pub fn select_aime_list_url(aime_idx: AimeIdx) -> (r: String)
        ensures
            r@ == "https://ongeki-net.com/ongeki-mobile/aimeList/submit/?idx="@ + dec(aime_idx.0 as nat),
    {
        let mut r = String::new();
        push_str(&mut r, "https://ongeki-net.com/ongeki-mobile/aimeList/submit/?idx=");
        push_decimal(&mut r, aime_idx.0 as u64);
        r
    }

    /// A request for a play record that redirects to this path finds no
    /// such record.
    pub fn play_log_detail_not_found(location_path: &str) -> (r: bool)
        ensures
            r == (location_path@ == "/ongeki-mobile/record/playlog/"@),
    {
        str_eq(location_path, "/ongeki-mobile/record/playlog/")
    }
}

} // verus!
