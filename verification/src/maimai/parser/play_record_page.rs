//! The play record page as a tree: what the reader of the page takes from
//! it, part by part, before any of it is read as a record.

use vstd::prelude::*;

use crate::dom::{
    attr, classes, element_attr, element_classes, element_matches, element_text, first, first_attr, first_attr_of,
    first_match, first_text, first_text_child, first_text_of, following, following_elements, matches_selector, parent,
    parent_element, preceding, preceding_elements, select, selected, text, text_child,
};
use crate::maimai::parser::img_src::{opt_view, ImgSrcError};
use crate::maimai::parser::play_record::{
    achievement_text_value, first_track_number, parse_achievement_rank, parse_achievement_txt, parse_battle_kind_img,
    parse_delta_sign, parse_deluxscore, parse_dxstar, parse_full_combo_img, parse_full_sync_img,
    parse_matching_rank_img, parse_play_date, parse_playlog_diff, parse_playlog_vs_result, parse_rating_color,
    parse_rating_delta, parse_score_generation_img, parse_track_index, parse_utage_kind, play_date_seconds,
    playlog_diff_of_src, track_text_value_from, achievement_rank_of_src, delta_sign_of_src, rating_color_of_src,
    rating_delta_text_value, ratio_of_text, score_generation_of_src, battle_kind_of_src, vs_result_of_src,
    dxstar_of_src, full_combo_of_src, full_sync_of_src, matching_rank_of_src, FieldError,
};
use crate::maimai::parser::playlog::{
    battle_result, break_counts, checked_place, cover_art, matching_result, parse_cleared, parse_fast_late,
    parse_judge_count_row, parse_life_block, parse_max_combo_sync, parse_other_players, record_generation,
    required_max_combo, tour_members, count_text, chara_ok, chara_views, course_icons, judge_cell, judge_row,
    perfect_challenge_icons, is_clear_img, span_players, span_reads, src_views, CharaFields, MatchingSpan, PlaylogError,
    PlaylogPart,
};
use crate::maimai::schema::latest::{
    AchievementResult, BattleKind, BattleOpponent, ComboResult, DeluxscoreRank, DeluxscoreResult, Idx, JudgeCount,
    JudgeResult, LifeResult, PlaceName, PlayRecord, PlayTime, PlayedAt, RatingBorderColor, RatingResult, RatingValue,
    FullSyncKind, ScoreDifficulty, ScoreGeneration, ScoreMetadata, MAX_ACHIEVEMENT, url_text, SongMetadata, SongName, UserName, UtageKind, UtageMetadata,
};
use crate::text::{parse_unsigned, parse_unsigned_max, str_eq, trim_spec};

verus! {

/// An image of the utage block: its `src` and the text of the element
/// after it (none when there is none).
#[derive(Clone, Debug)]
pub struct UtageImg {
    pub src: Option<String>,
    pub next_text: Option<String>,
}

/// The top block: difficulty, utage, battle images, track and date.
#[derive(Clone, Debug)]
pub struct TopFields {
    /// The `src` of the difficulty image (`None` when there is no image).
    pub diff_img: Option<Option<String>>,
    /// The images of the utage block (`None` when there is no such block).
    pub utage_imgs: Option<Vec<UtageImg>>,
    pub vs_img: Option<Option<String>>,
    pub vs_result_img: Option<Option<String>>,
    /// The texts of the first and second sub title spans.
    pub track_text: Option<String>,
    pub date_text: Option<String>,
}

/// The DX score block: the text of its first inner block with the `src` of
/// the element after that block (`None` when there is none), whether it
/// marks a new record, and the elements after the block (whether each is an
/// image, and its `src`).
#[derive(Clone, Debug)]
pub struct ScoreBlockFields {
    pub dx: Option<(String, Option<Option<String>>)>,
    pub dx_new: bool,
    pub after: Vec<(bool, Option<String>)>,
}

/// The result block.
#[derive(Clone, Debug)]
pub struct ResultFields {
    pub ach_new: bool,
    pub ach_text: Option<String>,
    pub rank_img: Option<Option<String>>,
    /// `None` when there is no inner block, `Some(None)` when the inner
    /// block has no score block.
    pub score: Option<Option<ScoreBlockFields>>,
    /// The text of the life block and the `src` of the elements before it,
    /// nearest first.
    pub life: Option<(String, Vec<Option<String>>)>,
}

/// The block after the top block.
#[derive(Clone, Debug)]
pub struct MainFields {
    /// The text of the basic block and the `src` of its first image.
    pub basic: Option<(String, Option<Option<String>>)>,
    pub music_img: Option<Option<String>>,
    pub generation_img: Option<Option<String>>,
    pub result: Option<ResultFields>,
}

/// A rating block: its text and the `src` of the element before it
/// (`None` when there is none).
#[derive(Clone, Debug)]
pub struct RatingBlockFields {
    pub text: String,
    pub color_img: Option<Option<String>>,
}

/// The rating detail block: its rating block, and the elements after the
/// rating block's parent (`None` when it has no parent): the `src` of each
/// and the text of its first span.
#[derive(Clone, Debug)]
pub struct RatingDetailFields {
    pub block: Option<RatingBlockFields>,
    pub after: Option<Vec<(Option<String>, Option<String>)>>,
}

/// The gray block: tour members, fast and late, judgements, rating, and
/// the inner texts of the score blocks.
#[derive(Clone, Debug)]
pub struct GrayFields {
    pub charas: Vec<CharaFields>,
    /// The texts of the child elements of the fast-late block.
    pub fl: Option<Vec<String>>,
    /// The texts of the cells of each row after the first of the table.
    pub rows: Option<Vec<Vec<String>>>,
    pub rating: Option<RatingDetailFields>,
    pub score_blocks: Vec<Option<String>>,
}

/// The left side of the opponent block: the `src` of its image, and the
/// first text node and span text of its inner block.
#[derive(Clone, Debug)]
pub struct VsLeftFields {
    pub kind_img: Option<Option<String>>,
    pub wrapping: Option<(Option<String>, Option<String>)>,
}

/// The opponent block's outer span: its left side and its right side's
/// rating block (`None` when there is no right side).
#[derive(Clone, Debug)]
pub struct VsFields {
    pub left: Option<VsLeftFields>,
    pub right: Option<Option<RatingBlockFields>>,
}

/// The top block with what hangs off it: the block after it, and the gray
/// block after its parent (`None` when it has no parent, `Some(None)` when
/// no gray block follows).
#[derive(Clone, Debug)]
pub struct TopPart {
    pub fields: TopFields,
    pub main: Option<MainFields>,
    pub gray: Option<Option<GrayFields>>,
}

/// Everything the reader takes from a play record page.
#[derive(Clone, Debug)]
pub struct PlayRecordPage {
    pub top: Option<TopPart>,
    /// `None` when there is no opponent block, `Some(None)` when it has no
    /// outer span.
    pub vs: Option<Option<VsFields>>,
    pub place: Option<String>,
    pub matching: Option<Vec<MatchingSpan>>,
}

/// The text of the element after `e`; the inner none when there is none.
pub open spec fn next_text(h: Seq<char>, e: usize) -> Option<Option<Seq<char>>> {
    match following_elements(h, e) {
        None => None,
        Some(s) => if s.len() > 0 {
            match element_text(h, s[0]) {
                None => None,
                Some(t) => Some(Some(t)),
            }
        } else {
            Some(None)
        },
    }
}

/// The `src` of the element after `e`; the middle none when there is none.
pub open spec fn next_src(h: Seq<char>, e: usize) -> Option<Option<Option<Seq<char>>>> {
    match following_elements(h, e) {
        None => None,
        Some(s) => if s.len() > 0 {
            match element_attr(h, s[0], "src"@) {
                None => None,
                Some(a) => Some(Some(a)),
            }
        } else {
            Some(None)
        },
    }
}

/// The `src` of the element before `e`; the middle none when there is none.
pub open spec fn prev_src(h: Seq<char>, e: usize) -> Option<Option<Option<Seq<char>>>> {
    match preceding_elements(h, e) {
        None => None,
        Some(s) => if s.len() > 0 {
            match element_attr(h, s[0], "src"@) {
                None => None,
                Some(a) => Some(Some(a)),
            }
        } else {
            Some(None)
        },
    }
}

/// The text of `es[i]`; the inner none when there is no such element.
pub open spec fn text_at_index(h: Seq<char>, es: Seq<usize>, i: int) -> Option<Option<Seq<char>>> {
    if 0 <= i < es.len() {
        match element_text(h, es[i]) {
            None => None,
            Some(t) => Some(Some(t)),
        }
    } else {
        Some(None)
    }
}

/// The texts of the elements `es`.
pub open spec fn texts_at(h: Seq<char>, es: Seq<usize>, ts: Seq<String>) -> bool {
    &&& es.len() == ts.len()
    &&& forall|i: int| 0 <= i < es.len() ==> element_text(h, es[i]) == Some(#[trigger] ts[i]@)
}

fn next_text_of(html: &str, e: usize) -> (r: Option<Option<String>>)
    ensures
        r.deep_view() == next_text(html@, e),
{
    let s = following(html, e)?;
    if s.len() > 0 {
        Some(Some(text(html, s[0])?))
    } else {
        Some(None)
    }
}

fn next_src_of(html: &str, e: usize) -> (r: Option<Option<Option<String>>>)
    ensures
        r.deep_view() == next_src(html@, e),
{
    let s = following(html, e)?;
    if s.len() > 0 {
        Some(Some(attr(html, s[0], "src")?))
    } else {
        Some(None)
    }
}

fn prev_src_of(html: &str, e: usize) -> (r: Option<Option<Option<String>>>)
    ensures
        r.deep_view() == prev_src(html@, e),
{
    let s = preceding(html, e)?;
    if s.len() > 0 {
        Some(Some(attr(html, s[0], "src")?))
    } else {
        Some(None)
    }
}

fn text_at_index_of(html: &str, es: &Vec<usize>, i: usize) -> (r: Option<Option<String>>)
    ensures
        r.deep_view() == text_at_index(html@, es@, i as int),
{
    if i < es.len() {
        Some(Some(text(html, es[i])?))
    } else {
        Some(None)
    }
}

fn texts_of(html: &str, es: &Vec<usize>) -> (r: Option<Vec<String>>)
    ensures
        r matches Some(ts) ==> texts_at(html@, es@, ts@),
        r is None ==> forall|ts: Seq<String>| !texts_at(html@, es@, ts),
{
    let mut ts: Vec<String> = Vec::new();
    let mut i: usize = 0;
    while i < es.len()
        invariant
            i <= es@.len(),
            ts@.len() == i,
            forall|j: int| 0 <= j < i ==> element_text(html@, es@[j]) == Some(#[trigger] ts@[j]@),
        decreases es@.len() - i,
    {
        match text(html, es[i]) {
            Some(t) => {
                ts.push(t);
            },
            None => {
                proof {
                    assert forall|x: Seq<String>| !texts_at(html@, es@, x) by {
                        if texts_at(html@, es@, x) {
                            assert(element_text(html@, es@[i as int]) == Some(x[i as int]@));
                        }
                    }
                }
                return None;
            },
        }
        i = i + 1;
    }
    Some(ts)
}

} // verus!

verus! {

/// An image of the utage block as the page holds it.
pub open spec fn utage_img_at(h: Seq<char>, e: usize, u: UtageImg) -> bool {
    element_attr(h, e, "src"@) == Some(u.src.deep_view()) && next_text(h, e) == Some(u.next_text.deep_view())
}

/// The images of the utage block under the top block `t`.
pub open spec fn utage_at(h: Seq<char>, t: usize, v: Option<Vec<UtageImg>>) -> bool {
    match first_match(h, t, "div.playlog_music_kind_icon_utage"@) {
        None => false,
        Some(None) => v is None,
        Some(Some(d)) => {
            &&& selected(h, d, "img"@) matches Some(imgs)
            &&& v matches Some(us)
            &&& us@.len() == imgs.len()
            &&& forall|i: int| 0 <= i < imgs.len() ==> utage_img_at(h, imgs[i], #[trigger] us@[i])
        },
    }
}

/// The fields of the top block `t`.
pub open spec fn top_fields_at(h: Seq<char>, t: usize, f: TopFields) -> bool {
    &&& first_attr(h, t, "img.playlog_diff"@, "src"@) == Some(f.diff_img.deep_view())
    &&& utage_at(h, t, f.utage_imgs)
    &&& first_attr(h, t, "img.playlog_vs"@, "src"@) == Some(f.vs_img.deep_view())
    &&& first_attr(h, t, "img.playlog_vs_result"@, "src"@) == Some(f.vs_result_img.deep_view())
    &&& selected(h, t, "div.sub_title > span"@) matches Some(spans)
    &&& text_at_index(h, spans, 0) == Some(f.track_text.deep_view())
    &&& text_at_index(h, spans, 1) == Some(f.date_text.deep_view())
}

/// Whether element `e` is an image, and its `src`.
pub open spec fn sib_img_at(h: Seq<char>, e: usize, p: (bool, Option<String>)) -> bool {
    element_matches(h, e, "img"@) == Some(p.0) && element_attr(h, e, "src"@) == Some(p.1.deep_view())
}

/// The fields of the score block `sb`.
pub open spec fn score_block_at(h: Seq<char>, sb: usize, f: ScoreBlockFields) -> bool {
    &&& match first_match(h, sb, "div"@) {
        None => false,
        Some(None) => f.dx is None,
        Some(Some(d)) => {
            &&& f.dx matches Some(x)
            &&& element_text(h, d) == Some(x.0@)
            &&& next_src(h, d) == Some(x.1.deep_view())
        },
    }
    &&& first_match(h, sb, ".playlog_deluxscore_newrecord"@) matches Some(n)
    &&& f.dx_new == (n is Some)
    &&& following_elements(h, sb) matches Some(sibs)
    &&& f.after@.len() == sibs.len()
    &&& forall|i: int| 0 <= i < sibs.len() ==> sib_img_at(h, sibs[i], #[trigger] f.after@[i])
}

/// The score part of the result block `rb`.
pub open spec fn score_part_at(h: Seq<char>, rb: usize, s: Option<Option<ScoreBlockFields>>) -> bool {
    match first_match(h, rb, "div.playlog_result_innerblock"@) {
        None => false,
        Some(None) => s is None,
        Some(Some(inner)) => match first_match(h, inner, ".playlog_score_block"@) {
            None => false,
            Some(None) => s matches Some(x) && x is None,
            Some(Some(sb)) => s matches Some(Some(x)) && score_block_at(h, sb, x),
        },
    }
}

/// The life part of the result block `rb`.
pub open spec fn life_at(h: Seq<char>, rb: usize, l: Option<(String, Vec<Option<String>>)>) -> bool {
    match first_match(h, rb, "div.playlog_life_block"@) {
        None => false,
        Some(None) => l is None,
        Some(Some(b)) => {
            &&& l matches Some(x)
            &&& element_text(h, b) == Some(x.0@)
            &&& preceding_elements(h, b) matches Some(ps)
            &&& x.1@.len() == ps.len()
            &&& forall|i: int| 0 <= i < ps.len() ==> element_attr(h, ps[i], "src"@) == Some((#[trigger] x.1@[i]).deep_view())
        },
    }
}

/// The fields of the result block `rb`.
pub open spec fn result_at(h: Seq<char>, rb: usize, f: ResultFields) -> bool {
    &&& first_match(h, rb, "img.playlog_achievement_newrecord"@) matches Some(n)
    &&& f.ach_new == (n is Some)
    &&& first_text(h, rb, "div.playlog_achievement_txt"@) == Some(f.ach_text.deep_view())
    &&& first_attr(h, rb, "img.playlog_scorerank"@, "src"@) == Some(f.rank_img.deep_view())
    &&& score_part_at(h, rb, f.score)
    &&& life_at(h, rb, f.life)
}

/// The basic block of the main block `m`.
pub open spec fn basic_at(h: Seq<char>, m: usize, b: Option<(String, Option<Option<String>>)>) -> bool {
    match first_match(h, m, ".basic_block"@) {
        None => false,
        Some(None) => b is None,
        Some(Some(e)) => {
            &&& b matches Some(x)
            &&& element_text(h, e) == Some(x.0@)
            &&& first_attr(h, e, "img"@, "src"@) == Some(x.1.deep_view())
        },
    }
}

/// The fields of the main block `m`.
pub open spec fn main_at(h: Seq<char>, m: usize, f: MainFields) -> bool {
    &&& basic_at(h, m, f.basic)
    &&& first_attr(h, m, "img.music_img"@, "src"@) == Some(f.music_img.deep_view())
    &&& first_attr(h, m, "img.playlog_music_kind_icon"@, "src"@) == Some(f.generation_img.deep_view())
    &&& match first_match(h, m, ".playlog_result_block"@) {
        None => false,
        Some(None) => f.result is None,
        Some(Some(rb)) => f.result matches Some(x) && result_at(h, rb, x),
    }
}

fn read_utage(html: &str, t: usize) -> (r: Option<Option<Vec<UtageImg>>>)
    ensures
        r matches Some(v) ==> utage_at(html@, t, v),
        r is None ==> forall|v: Option<Vec<UtageImg>>| !utage_at(html@, t, v),
{
    let d = match first(html, t, "div.playlog_music_kind_icon_utage")? {
        None => {
            return Some(None);
        },
        Some(d) => d,
    };
    let imgs = select(html, d, "img")?;
    let mut us: Vec<UtageImg> = Vec::new();
    let mut i: usize = 0;
    while i < imgs.len()
        invariant
            i <= imgs@.len(),
            first_match(html@, t, "div.playlog_music_kind_icon_utage"@) == Some(Some(d)),
            selected(html@, d, "img"@) == Some(imgs@),
            us@.len() == i,
            forall|j: int| 0 <= j < i ==> utage_img_at(html@, imgs@[j], #[trigger] us@[j]),
        decreases imgs@.len() - i,
    {
        let src = attr(html, imgs[i], "src");
        let next = next_text_of(html, imgs[i]);
        match (src, next) {
            (Some(s), Some(n)) => {
                us.push(UtageImg { src: s, next_text: n });
            },
            _ => {
                proof {
                    let ims = selected(html@, d, "img"@)->0;
                    assert forall|v: Option<Vec<UtageImg>>| !utage_at(html@, t, v) by {
                        if utage_at(html@, t, v) {
                            assert(utage_img_at(html@, ims[i as int], v->0@[i as int]));
                        }
                    }
                }
                return None;
            },
        }
        i = i + 1;
    }
    Some(Some(us))
}

fn read_top_fields(html: &str, t: usize) -> (r: Option<TopFields>)
    ensures
        r matches Some(f) ==> top_fields_at(html@, t, f),
        r is None ==> forall|f: TopFields| !top_fields_at(html@, t, f),
{
    let diff_img = first_attr_of(html, t, "img.playlog_diff", "src")?;
    let utage_imgs = read_utage(html, t)?;
    let vs_img = first_attr_of(html, t, "img.playlog_vs", "src")?;
    let vs_result_img = first_attr_of(html, t, "img.playlog_vs_result", "src")?;
    let spans = select(html, t, "div.sub_title > span")?;
    let track_text = text_at_index_of(html, &spans, 0)?;
    let date_text = text_at_index_of(html, &spans, 1)?;
    Some(TopFields { diff_img, utage_imgs, vs_img, vs_result_img, track_text, date_text })
}

fn read_score_block(html: &str, sb: usize) -> (r: Option<ScoreBlockFields>)
    ensures
        r matches Some(f) ==> score_block_at(html@, sb, f),
        r is None ==> forall|f: ScoreBlockFields| !score_block_at(html@, sb, f),
{
    let dx = match first(html, sb, "div")? {
        None => None,
        Some(d) => {
            let t = text(html, d)?;
            let s = next_src_of(html, d)?;
            Some((t, s))
        },
    };
    let dx_new = first(html, sb, ".playlog_deluxscore_newrecord")?.is_some();
    let sibs = following(html, sb)?;
    let mut after: Vec<(bool, Option<String>)> = Vec::new();
    let mut i: usize = 0;
    while i < sibs.len()
        invariant
            i <= sibs@.len(),
            following_elements(html@, sb) == Some(sibs@),
            after@.len() == i,
            forall|j: int| 0 <= j < i ==> sib_img_at(html@, sibs@[j], #[trigger] after@[j]),
        decreases sibs@.len() - i,
    {
        let m = matches_selector(html, sibs[i], "img");
        let a = attr(html, sibs[i], "src");
        match (m, a) {
            (Some(m), Some(a)) => {
                after.push((m, a));
            },
            _ => {
                proof {
                    let ss = following_elements(html@, sb)->0;
                    assert forall|f: ScoreBlockFields| !score_block_at(html@, sb, f) by {
                        if score_block_at(html@, sb, f) {
                            assert(sib_img_at(html@, ss[i as int], f.after@[i as int]));
                        }
                    }
                }
                return None;
            },
        }
        i = i + 1;
    }
    Some(ScoreBlockFields { dx, dx_new, after })
}

fn read_score_part(html: &str, rb: usize) -> (r: Option<Option<Option<ScoreBlockFields>>>)
    ensures
        r matches Some(s) ==> score_part_at(html@, rb, s),
        r is None ==> forall|s: Option<Option<ScoreBlockFields>>| !score_part_at(html@, rb, s),
{
    let inner = match first(html, rb, "div.playlog_result_innerblock")? {
        None => {
            return Some(None);
        },
        Some(i) => i,
    };
    match first(html, inner, ".playlog_score_block")? {
        None => Some(Some(None)),
        Some(sb) => Some(Some(Some(read_score_block(html, sb)?))),
    }
}

fn read_life(html: &str, rb: usize) -> (r: Option<Option<(String, Vec<Option<String>>)>>)
    ensures
        r matches Some(l) ==> life_at(html@, rb, l),
        r is None ==> forall|l: Option<(String, Vec<Option<String>>)>| !life_at(html@, rb, l),
{
    let b = match first(html, rb, "div.playlog_life_block")? {
        None => {
            return Some(None);
        },
        Some(b) => b,
    };
    let t = text(html, b)?;
    let ps = preceding(html, b)?;
    let mut icons: Vec<Option<String>> = Vec::new();
    let mut i: usize = 0;
    while i < ps.len()
        invariant
            i <= ps@.len(),
            first_match(html@, rb, "div.playlog_life_block"@) == Some(Some(b)),
            element_text(html@, b) == Some(t@),
            preceding_elements(html@, b) == Some(ps@),
            icons@.len() == i,
            forall|j: int| 0 <= j < i ==> element_attr(html@, ps@[j], "src"@) == Some((#[trigger] icons@[j]).deep_view()),
        decreases ps@.len() - i,
    {
        match attr(html, ps[i], "src") {
            Some(a) => {
                icons.push(a);
            },
            None => {
                proof {
                    let pp = preceding_elements(html@, b)->0;
                    assert forall|l: Option<(String, Vec<Option<String>>)>| !life_at(html@, rb, l) by {
                        if life_at(html@, rb, l) {
                            assert(element_attr(html@, pp[i as int], "src"@) == Some((l->0).1@[i as int].deep_view()));
                        }
                    }
                }
                return None;
            },
        }
        i = i + 1;
    }
    Some(Some((t, icons)))
}

fn read_result(html: &str, rb: usize) -> (r: Option<ResultFields>)
    ensures
        r matches Some(f) ==> result_at(html@, rb, f),
        r is None ==> forall|f: ResultFields| !result_at(html@, rb, f),
{
    let ach_new = first(html, rb, "img.playlog_achievement_newrecord")?.is_some();
    let ach_text = first_text_of(html, rb, "div.playlog_achievement_txt")?;
    let rank_img = first_attr_of(html, rb, "img.playlog_scorerank", "src")?;
    let score = read_score_part(html, rb)?;
    let life = read_life(html, rb)?;
    Some(ResultFields { ach_new, ach_text, rank_img, score, life })
}

fn read_main(html: &str, m: usize) -> (r: Option<MainFields>)
    ensures
        r matches Some(f) ==> main_at(html@, m, f),
        r is None ==> forall|f: MainFields| !main_at(html@, m, f),
{
    let basic = match first(html, m, ".basic_block")? {
        None => None,
        Some(b) => {
            let t = text(html, b)?;
            let img = first_attr_of(html, b, "img", "src")?;
            Some((t, img))
        },
    };
    let music_img = first_attr_of(html, m, "img.music_img", "src")?;
    let generation_img = first_attr_of(html, m, "img.playlog_music_kind_icon", "src")?;
    let result = match first(html, m, ".playlog_result_block")? {
        None => None,
        Some(rb) => Some(read_result(html, rb)?),
    };
    Some(MainFields { basic, music_img, generation_img, result })
}

} // verus!

verus! {

/// The rating block under `p`.
pub open spec fn rating_block_at(h: Seq<char>, p: usize, f: Option<RatingBlockFields>) -> bool {
    match first_match(h, p, "div.rating_block"@) {
        None => false,
        Some(None) => f is None,
        Some(Some(rb)) => {
            &&& f matches Some(x)
            &&& element_text(h, rb) == Some(x.text@)
            &&& prev_src(h, rb) == Some(x.color_img.deep_view())
        },
    }
}

/// An element after the parent of a rating block: its `src` and the text
/// of its first span.
pub open spec fn delta_sib_at(h: Seq<char>, e: usize, p: (Option<String>, Option<String>)) -> bool {
    element_attr(h, e, "src"@) == Some(p.0.deep_view()) && first_text(h, e, "span"@) == Some(p.1.deep_view())
}

/// What follows the parent of the rating block under `rd`.
pub open spec fn delta_part_at(h: Seq<char>, rd: usize, a: Option<Vec<(Option<String>, Option<String>)>>) -> bool {
    match first_match(h, rd, "div.rating_block"@) {
        None => false,
        Some(None) => a is None,
        Some(Some(rb)) => match parent_element(h, rb) {
            None => false,
            Some(None) => a is None,
            Some(Some(par)) => {
                &&& following_elements(h, par) matches Some(sibs)
                &&& a matches Some(v)
                &&& v@.len() == sibs.len()
                &&& forall|i: int| 0 <= i < sibs.len() ==> delta_sib_at(h, sibs[i], #[trigger] v@[i])
            },
        },
    }
}

/// The fields of the rating detail block `rd`.
pub open spec fn rating_detail_at(h: Seq<char>, rd: usize, f: RatingDetailFields) -> bool {
    rating_block_at(h, rd, f.block) && delta_part_at(h, rd, f.after)
}

/// The fields of a tour member's block `c`.
pub open spec fn chara_at(h: Seq<char>, c: usize, f: CharaFields) -> bool {
    &&& first_attr(h, c, "img.chara_cycle_img"@, "src"@) == Some(f.img.deep_view())
    &&& first_text(h, c, "div.playlog_chara_star_block"@) == Some(f.star.deep_view())
    &&& first_text(h, c, "div.playlog_chara_lv_block"@) == Some(f.level.deep_view())
}

/// The texts of the cells of the row `row`.
pub open spec fn row_at(h: Seq<char>, row: usize, cells: Vec<String>) -> bool {
    match selected(h, row, "td"@) {
        Some(tds) => texts_at(h, tds, cells@),
        None => false,
    }
}

/// The rows of the judgement table under `g`.
pub open spec fn rows_at(h: Seq<char>, g: usize, rows: Option<Vec<Vec<String>>>) -> bool {
    match first_match(h, g, "table.playlog_notes_detail"@) {
        None => false,
        Some(None) => rows is None,
        Some(Some(tb)) => {
            &&& selected(h, tb, "tr:not(:first-child)"@) matches Some(rs)
            &&& rows matches Some(v)
            &&& v@.len() == rs.len()
            &&& forall|i: int| 0 <= i < rs.len() ==> row_at(h, rs[i], #[trigger] v@[i])
        },
    }
}

/// The fields of the gray block `g`.
pub open spec fn gray_at(h: Seq<char>, g: usize, f: GrayFields) -> bool {
    &&& selected(h, g, "div.playlog_chara_container"@) matches Some(cs)
    &&& f.charas@.len() == cs.len()
    &&& forall|i: int| 0 <= i < cs.len() ==> chara_at(h, cs[i], #[trigger] f.charas@[i])
    &&& match first_match(h, g, "div.playlog_fl_block"@) {
        None => false,
        Some(None) => f.fl is None,
        Some(Some(fl)) => selected(h, fl, ":scope > *"@) matches Some(ch) && f.fl matches Some(v) && texts_at(h, ch, v@),
    }
    &&& rows_at(h, g, f.rows)
    &&& match first_match(h, g, ".playlog_rating_detail_block"@) {
        None => false,
        Some(None) => f.rating is None,
        Some(Some(rd)) => f.rating matches Some(x) && rating_detail_at(h, rd, x),
    }
    &&& selected(h, g, "div.playlog_score_block"@) matches Some(sbs)
    &&& f.score_blocks@.len() == sbs.len()
    &&& forall|i: int| 0 <= i < sbs.len() ==> first_text(h, sbs[i], "div"@) == Some((#[trigger] f.score_blocks@[i]).deep_view())
}

/// `sibs[k]` is the first of `sibs` that is a gray block; `k` is the length
/// of `sibs` when none is.
pub open spec fn first_gray(h: Seq<char>, sibs: Seq<usize>, k: int) -> bool {
    &&& 0 <= k <= sibs.len()
    &&& forall|j: int| 0 <= j < k ==> element_matches(h, #[trigger] sibs[j], ".gray_block"@) == Some(false)
    &&& k < sibs.len() ==> element_matches(h, sibs[k], ".gray_block"@) == Some(true)
}

/// The gray block `g` is the one at `k` among `sibs`, or none when `k` is
/// past them.
pub open spec fn gray_pick(h: Seq<char>, sibs: Seq<usize>, k: int, g: Option<Option<GrayFields>>) -> bool {
    if k < sibs.len() {
        match g {
            Some(Some(x)) => gray_at(h, sibs[k], x),
            _ => false,
        }
    } else {
        match g {
            Some(None) => true,
            _ => false,
        }
    }
}

/// The gray block among the elements after the parent of the top block `t`.
pub open spec fn gray_found(h: Seq<char>, t: usize, g: Option<Option<GrayFields>>) -> bool {
    match parent_element(h, t) {
        None => false,
        Some(None) => g is None,
        Some(Some(p)) => {
            &&& following_elements(h, p) matches Some(sibs)
            &&& exists|k: int| #[trigger] first_gray(h, sibs, k) && gray_pick(h, sibs, k, g)
        },
    }
}

/// The top block `t` and what hangs off it.
pub open spec fn top_part_at(h: Seq<char>, t: usize, f: TopPart) -> bool {
    &&& top_fields_at(h, t, f.fields)
    &&& following_elements(h, t) matches Some(sibs)
    &&& if sibs.len() > 0 {
        f.main matches Some(m) && main_at(h, sibs[0], m)
    } else {
        f.main is None
    }
    &&& gray_found(h, t, f.gray)
}

/// The left side `l` of the opponent block.
pub open spec fn vs_left_at(h: Seq<char>, l: usize, f: VsLeftFields) -> bool {
    &&& first_attr(h, l, ":scope > img"@, "src"@) == Some(f.kind_img.deep_view())
    &&& match first_match(h, l, ":scope > div"@) {
        None => false,
        Some(None) => f.wrapping is None,
        Some(Some(w)) => {
            &&& f.wrapping matches Some(x)
            &&& first_text_child(h, w) == Some(x.0.deep_view())
            &&& first_text(h, w, ":scope > span"@) == Some(x.1.deep_view())
        },
    }
}

/// The outer span `o` of the opponent block.
pub open spec fn vs_outer_at(h: Seq<char>, o: usize, f: VsFields) -> bool {
    &&& match first_match(h, o, ":scope > span.p_t_5.d_ib.f_l"@) {
        None => false,
        Some(None) => f.left is None,
        Some(Some(l)) => f.left matches Some(x) && vs_left_at(h, l, x),
    }
    &&& match first_match(h, o, ":scope > div.p_3.f_l"@) {
        None => false,
        Some(None) => f.right is None,
        Some(Some(r)) => f.right matches Some(x) && rating_block_at(h, r, x),
    }
}

/// The opponent block of the page.
pub open spec fn vs_at(h: Seq<char>, f: Option<Option<VsFields>>) -> bool {
    match first_match(h, 0, "#vsUser"@) {
        None => false,
        Some(None) => f is None,
        Some(Some(d)) => match first_match(h, d, ":scope > span"@) {
            None => false,
            Some(None) => f matches Some(x) && x is None,
            Some(Some(o)) => f matches Some(Some(x)) && vs_outer_at(h, o, x),
        },
    }
}

/// A span of the other players' block.
pub open spec fn span_at(h: Seq<char>, e: usize, s: MatchingSpan) -> bool {
    element_classes(h, e) == Some(s.classes.deep_view()) && first_text(h, e, "div"@) == Some(s.name.deep_view())
}

/// The other players' block of the page.
pub open spec fn matching_at(h: Seq<char>, f: Option<Vec<MatchingSpan>>) -> bool {
    match first_match(h, 0, "#matching"@) {
        None => false,
        Some(None) => f is None,
        Some(Some(d)) => {
            &&& selected(h, d, ":scope > span"@) matches Some(sp)
            &&& f matches Some(v)
            &&& v@.len() == sp.len()
            &&& forall|i: int| 0 <= i < sp.len() ==> span_at(h, sp[i], #[trigger] v@[i])
        },
    }
}

/// Everything the reader takes from the page `h`.
pub open spec fn page_at(h: Seq<char>, p: PlayRecordPage) -> bool {
    &&& match first_match(h, 0, ".playlog_top_container"@) {
        None => false,
        Some(None) => p.top is None,
        Some(Some(t)) => p.top matches Some(x) && top_part_at(h, t, x),
    }
    &&& vs_at(h, p.vs)
    &&& first_text(h, 0, "#placeName > span"@) == Some(p.place.deep_view())
    &&& matching_at(h, p.matching)
}

} // verus!

verus! {

fn read_rating_block(html: &str, p: usize) -> (r: Option<Option<RatingBlockFields>>)
    ensures
        r matches Some(f) ==> rating_block_at(html@, p, f),
        r is None ==> forall|f: Option<RatingBlockFields>| !rating_block_at(html@, p, f),
{
    match first(html, p, "div.rating_block")? {
        None => Some(None),
        Some(rb) => {
            let t = text(html, rb)?;
            let c = prev_src_of(html, rb)?;
            Some(Some(RatingBlockFields { text: t, color_img: c }))
        },
    }
}

fn read_delta_part(html: &str, rd: usize) -> (r: Option<Option<Vec<(Option<String>, Option<String>)>>>)
    ensures
        r matches Some(a) ==> delta_part_at(html@, rd, a),
        r is None ==> forall|a: Option<Vec<(Option<String>, Option<String>)>>| !delta_part_at(html@, rd, a),
{
    let rb = match first(html, rd, "div.rating_block")? {
        None => {
            return Some(None);
        },
        Some(rb) => rb,
    };
    let par = match parent(html, rb)? {
        None => {
            return Some(None);
        },
        Some(p) => p,
    };
    let sibs = following(html, par)?;
    let mut v: Vec<(Option<String>, Option<String>)> = Vec::new();
    let mut i: usize = 0;
    while i < sibs.len()
        invariant
            i <= sibs@.len(),
            first_match(html@, rd, "div.rating_block"@) == Some(Some(rb)),
            parent_element(html@, rb) == Some(Some(par)),
            following_elements(html@, par) == Some(sibs@),
            v@.len() == i,
            forall|j: int| 0 <= j < i ==> delta_sib_at(html@, sibs@[j], #[trigger] v@[j]),
        decreases sibs@.len() - i,
    {
        let a = attr(html, sibs[i], "src");
        let s = first_text_of(html, sibs[i], "span");
        match (a, s) {
            (Some(a), Some(s)) => {
                v.push((a, s));
            },
            _ => {
                proof {
                    let ss = following_elements(html@, par)->0;
                    assert forall|x: Option<Vec<(Option<String>, Option<String>)>>| !delta_part_at(html@, rd, x) by {
                        if delta_part_at(html@, rd, x) {
                            assert(delta_sib_at(html@, ss[i as int], x->0@[i as int]));
                        }
                    }
                }
                return None;
            },
        }
        i = i + 1;
    }
    Some(Some(v))
}

fn read_charas(html: &str, g: usize) -> (r: Option<Vec<CharaFields>>)
    ensures
        r matches Some(v) ==> selected(html@, g, "div.playlog_chara_container"@) matches Some(cs) && v@.len()
            == cs.len() && forall|i: int| 0 <= i < cs.len() ==> chara_at(html@, cs[i], #[trigger] v@[i]),
        r is None ==> forall|f: GrayFields| !gray_at(html@, g, f),
{
    let cs = select(html, g, "div.playlog_chara_container")?;
    let mut v: Vec<CharaFields> = Vec::new();
    let mut i: usize = 0;
    while i < cs.len()
        invariant
            i <= cs@.len(),
            selected(html@, g, "div.playlog_chara_container"@) == Some(cs@),
            v@.len() == i,
            forall|j: int| 0 <= j < i ==> chara_at(html@, cs@[j], #[trigger] v@[j]),
        decreases cs@.len() - i,
    {
        let img = first_attr_of(html, cs[i], "img.chara_cycle_img", "src");
        let star = first_text_of(html, cs[i], "div.playlog_chara_star_block");
        let level = first_text_of(html, cs[i], "div.playlog_chara_lv_block");
        match (img, star, level) {
            (Some(img), Some(star), Some(level)) => {
                v.push(CharaFields { img, star, level });
            },
            _ => {
                proof {
                    let cc = selected(html@, g, "div.playlog_chara_container"@)->0;
                    assert forall|f: GrayFields| !gray_at(html@, g, f) by {
                        if gray_at(html@, g, f) {
                            assert(chara_at(html@, cc[i as int], f.charas@[i as int]));
                        }
                    }
                }
                return None;
            },
        }
        i = i + 1;
    }
    Some(v)
}

fn read_rows(html: &str, g: usize) -> (r: Option<Option<Vec<Vec<String>>>>)
    ensures
        r matches Some(v) ==> rows_at(html@, g, v),
        r is None ==> forall|v: Option<Vec<Vec<String>>>| !rows_at(html@, g, v),
{
    let tb = match first(html, g, "table.playlog_notes_detail")? {
        None => {
            return Some(None);
        },
        Some(tb) => tb,
    };
    let rs = select(html, tb, "tr:not(:first-child)")?;
    let mut v: Vec<Vec<String>> = Vec::new();
    let mut i: usize = 0;
    while i < rs.len()
        invariant
            i <= rs@.len(),
            first_match(html@, g, "table.playlog_notes_detail"@) == Some(Some(tb)),
            selected(html@, tb, "tr:not(:first-child)"@) == Some(rs@),
            v@.len() == i,
            forall|j: int| 0 <= j < i ==> row_at(html@, rs@[j], #[trigger] v@[j]),
        decreases rs@.len() - i,
    {
        let cells = match select(html, rs[i], "td") {
            Some(tds) => match texts_of(html, &tds) {
                Some(ts) => ts,
                None => {
                    proof {
                        let rr = selected(html@, tb, "tr:not(:first-child)"@)->0;
                        assert forall|x: Option<Vec<Vec<String>>>| !rows_at(html@, g, x) by {
                            if rows_at(html@, g, x) {
                                assert(row_at(html@, rr[i as int], x->0@[i as int]));
                                assert(texts_at(html@, tds@, x->0@[i as int]@));
                            }
                        }
                    }
                    return None;
                },
            },
            None => {
                proof {
                    let rr = selected(html@, tb, "tr:not(:first-child)"@)->0;
                    assert forall|x: Option<Vec<Vec<String>>>| !rows_at(html@, g, x) by {
                        if rows_at(html@, g, x) {
                            assert(row_at(html@, rr[i as int], x->0@[i as int]));
                        }
                    }
                }
                return None;
            },
        };
        proof {
            assert(row_at(html@, rs@[i as int], cells));
        }
        v.push(cells);
        i = i + 1;
    }
    Some(Some(v))
}

fn read_gray(html: &str, g: usize) -> (r: Option<GrayFields>)
    ensures
        r matches Some(f) ==> gray_at(html@, g, f),
        r is None ==> forall|f: GrayFields| !gray_at(html@, g, f),
{
    let charas = read_charas(html, g)?;
    let fl = match first(html, g, "div.playlog_fl_block")? {
        None => None,
        Some(fl) => {
            let ch = select(html, fl, ":scope > *")?;
            match texts_of(html, &ch) {
                Some(ts) => Some(ts),
                None => {
                    proof {
                        assert forall|f: GrayFields| !gray_at(html@, g, f) by {
                            if gray_at(html@, g, f) {
                                assert(texts_at(html@, ch@, f.fl->0@));
                            }
                        }
                    }
                    return None;
                },
            }
        },
    };
    let rows = read_rows(html, g)?;
    let rating = match first(html, g, ".playlog_rating_detail_block")? {
        None => None,
        Some(rd) => {
            let block = read_rating_block(html, rd)?;
            let after = read_delta_part(html, rd)?;
            Some(RatingDetailFields { block, after })
        },
    };
    let sbs = select(html, g, "div.playlog_score_block")?;
    let mut score_blocks: Vec<Option<String>> = Vec::new();
    let mut i: usize = 0;
    while i < sbs.len()
        invariant
            i <= sbs@.len(),
            selected(html@, g, "div.playlog_score_block"@) == Some(sbs@),
            score_blocks@.len() == i,
            forall|j: int| 0 <= j < i ==> first_text(html@, sbs@[j], "div"@) == Some((#[trigger] score_blocks@[j]).deep_view()),
        decreases sbs@.len() - i,
    {
        match first_text_of(html, sbs[i], "div") {
            Some(t) => {
                score_blocks.push(t);
            },
            None => {
                proof {
                    let ss = selected(html@, g, "div.playlog_score_block"@)->0;
                    assert forall|f: GrayFields| !gray_at(html@, g, f) by {
                        if gray_at(html@, g, f) {
                            assert(first_text(html@, ss[i as int], "div"@) == Some(f.score_blocks@[i as int].deep_view()));
                        }
                    }
                }
                return None;
            },
        }
        i = i + 1;
    }
    Some(GrayFields { charas, fl, rows, rating, score_blocks })
}

fn read_gray_found(html: &str, t: usize) -> (r: Option<Option<Option<GrayFields>>>)
    ensures
        r matches Some(g) ==> gray_found(html@, t, g),
        r is None ==> forall|g: Option<Option<GrayFields>>| !gray_found(html@, t, g),
{
    let p = match parent(html, t)? {
        None => {
            return Some(None);
        },
        Some(p) => p,
    };
    let sibs = following(html, p)?;
    let mut k: usize = 0;
    while k < sibs.len()
        invariant
            k <= sibs@.len(),
            parent_element(html@, t) == Some(Some(p)),
            following_elements(html@, p) == Some(sibs@),
            forall|j: int| 0 <= j < k ==> element_matches(html@, #[trigger] sibs@[j], ".gray_block"@) == Some(false),
        decreases sibs@.len() - k,
    {
        match matches_selector(html, sibs[k], ".gray_block") {
            Some(true) => {
                proof {
                    assert(first_gray(html@, sibs@, k as int));
                }
                match read_gray(html, sibs[k]) {
                    Some(f) => {
                        proof {
                            let ss = following_elements(html@, p)->0;
                            assert(ss == sibs@);
                            assert(first_gray(html@, ss, k as int));
                            assert(gray_pick(html@, ss, k as int, Some(Some(f))));
                            assert(gray_found(html@, t, Some(Some(f))));
                        }
                        return Some(Some(Some(f)));
                    },
                    None => {
                        proof {
                            assert forall|g: Option<Option<GrayFields>>| !gray_found(html@, t, g) by {
                                if gray_found(html@, t, g) {
                                    let ss = following_elements(html@, p)->0;
                                    let m = choose|m: int| #[trigger] first_gray(html@, ss, m) && gray_pick(html@, ss, m, g);
                                    if m < k {
                                        assert(element_matches(html@, ss[m], ".gray_block"@) == Some(false));
                                    } else if m > k {
                                        assert(element_matches(html@, ss[k as int], ".gray_block"@) == Some(false));
                                    }
                                }
                            }
                        }
                        return None;
                    },
                }
            },
            Some(false) => {},
            None => {
                proof {
                    assert forall|g: Option<Option<GrayFields>>| !gray_found(html@, t, g) by {
                        if gray_found(html@, t, g) {
                            let ss = following_elements(html@, p)->0;
                            let m = choose|m: int| #[trigger] first_gray(html@, ss, m) && gray_pick(html@, ss, m, g);
                            if m < k {
                                assert(element_matches(html@, ss[m], ".gray_block"@) == Some(false));
                            } else if m > k {
                                assert(element_matches(html@, ss[k as int], ".gray_block"@) == Some(false));
                            } else {
                                assert(element_matches(html@, ss[m], ".gray_block"@) == Some(true));
                            }
                        }
                    }
                }
                return None;
            },
        }
        k = k + 1;
    }
    proof {
        assert(first_gray(html@, sibs@, k as int));
        let ss = following_elements(html@, p)->0;
        assert(ss == sibs@);
        assert(first_gray(html@, ss, k as int));
        assert(gray_pick(html@, ss, k as int, Some(None)));
        assert(gray_found(html@, t, Some(None)));
    }
    Some(Some(None))
}

fn read_top_part(html: &str, t: usize) -> (r: Option<TopPart>)
    ensures
        r matches Some(f) ==> top_part_at(html@, t, f),
        r is None ==> forall|f: TopPart| !top_part_at(html@, t, f),
{
    let fields = read_top_fields(html, t)?;
    let sibs = following(html, t)?;
    let main = if sibs.len() > 0 {
        Some(read_main(html, sibs[0])?)
    } else {
        None
    };
    let gray = read_gray_found(html, t)?;
    Some(TopPart { fields, main, gray })
}

fn read_vs_left(html: &str, l: usize) -> (r: Option<VsLeftFields>)
    ensures
        r matches Some(f) ==> vs_left_at(html@, l, f),
        r is None ==> forall|f: VsLeftFields| !vs_left_at(html@, l, f),
{
    let kind_img = first_attr_of(html, l, ":scope > img", "src")?;
    let wrapping = match first(html, l, ":scope > div")? {
        None => None,
        Some(w) => {
            let name = text_child(html, w)?;
            let ach = first_text_of(html, w, ":scope > span")?;
            Some((name, ach))
        },
    };
    Some(VsLeftFields { kind_img, wrapping })
}

fn read_vs_outer(html: &str, o: usize) -> (r: Option<VsFields>)
    ensures
        r matches Some(f) ==> vs_outer_at(html@, o, f),
        r is None ==> forall|f: VsFields| !vs_outer_at(html@, o, f),
{
    let left = match first(html, o, ":scope > span.p_t_5.d_ib.f_l")? {
        None => None,
        Some(l) => Some(read_vs_left(html, l)?),
    };
    let right = match first(html, o, ":scope > div.p_3.f_l")? {
        None => None,
        Some(r) => Some(read_rating_block(html, r)?),
    };
    Some(VsFields { left, right })
}

fn read_vs(html: &str) -> (r: Option<Option<Option<VsFields>>>)
    ensures
        r matches Some(f) ==> vs_at(html@, f),
        r is None ==> forall|f: Option<Option<VsFields>>| !vs_at(html@, f),
{
    let d = match first(html, 0, "#vsUser")? {
        None => {
            return Some(None);
        },
        Some(d) => d,
    };
    match first(html, d, ":scope > span")? {
        None => Some(Some(None)),
        Some(o) => Some(Some(Some(read_vs_outer(html, o)?))),
    }
}

fn read_matching(html: &str) -> (r: Option<Option<Vec<MatchingSpan>>>)
    ensures
        r matches Some(f) ==> matching_at(html@, f),
        r is None ==> forall|f: Option<Vec<MatchingSpan>>| !matching_at(html@, f),
{
    let d = match first(html, 0, "#matching")? {
        None => {
            return Some(None);
        },
        Some(d) => d,
    };
    let sp = select(html, d, ":scope > span")?;
    let mut v: Vec<MatchingSpan> = Vec::new();
    let mut i: usize = 0;
    while i < sp.len()
        invariant
            i <= sp@.len(),
            first_match(html@, 0, "#matching"@) == Some(Some(d)),
            selected(html@, d, ":scope > span"@) == Some(sp@),
            v@.len() == i,
            forall|j: int| 0 <= j < i ==> span_at(html@, sp@[j], #[trigger] v@[j]),
        decreases sp@.len() - i,
    {
        let cs = classes(html, sp[i]);
        let name = first_text_of(html, sp[i], "div");
        match (cs, name) {
            (Some(cs), Some(name)) => {
                v.push(MatchingSpan { classes: cs, name });
            },
            _ => {
                proof {
                    let ss = selected(html@, d, ":scope > span"@)->0;
                    assert forall|f: Option<Vec<MatchingSpan>>| !matching_at(html@, f) by {
                        if matching_at(html@, f) {
                            assert(span_at(html@, ss[i as int], f->0@[i as int]));
                        }
                    }
                }
                return None;
            },
        }
        i = i + 1;
    }
    Some(Some(v))
}

/// Walks a play record page and takes from it what its reader needs: none
/// when a query of the walk fails (a selector refused or an element not
/// found again).
pub fn read_play_record_page(html: &str) -> (r: Option<PlayRecordPage>)
    ensures
        r matches Some(p) ==> page_at(html@, p),
        r is None ==> forall|p: PlayRecordPage| !page_at(html@, p),
{
    let top = match first(html, 0, ".playlog_top_container")? {
        None => None,
        Some(t) => Some(read_top_part(html, t)?),
    };
    let vs = read_vs(html)?;
    let place = first_text_of(html, 0, "#placeName > span")?;
    let matching = read_matching(html)?;
    Some(PlayRecordPage { top, vs, place, matching })
}

} // verus!

verus! {

/// A part of a play record page that was not found.
#[derive(Clone, Copy, PartialEq, Eq, Structural, Debug)]
pub enum RecordPart {
    TopContainer,
    DifficultyImg,
    UtageKindIcon,
    UtageKindText,
    TrackSpan,
    DateSpan,
    MainBlock,
    BasicBlock,
    MusicImg,
    MusicImgSrc,
    ResultBlock,
    AchievementText,
    ScoreRankImg,
    InnerBlock,
    ScoreBlock,
    DeluxscoreDiv,
    FullComboImg,
    FullSyncImg,
    GrayParent,
    GrayBlock,
    FastLate,
    NotesTable,
    JudgeRow,
    RatingDetail,
    RatingBlock,
    RatingColorImg,
    RatingParent,
    DeltaSign,
    DeltaDiv,
    DeltaSpan,
    MaxCombo,
    MaxSync,
    OpponentOuter,
    OpponentLeft,
    OpponentKindImg,
    OpponentBlock,
    OpponentName,
    OpponentAchievement,
    OpponentRight,
}

/// An image of a play record page.
#[derive(Clone, Copy, PartialEq, Eq, Structural, Debug)]
pub enum RecordImg {
    Difficulty,
    BattleKind,
    BattleResult,
    Generation,
    ScoreRank,
    DxStar,
    FullCombo,
    FullSync,
    MatchingRank,
    RatingColor,
    DeltaSign,
}

/// A text of a play record page.
#[derive(Clone, Copy, PartialEq, Eq, Structural, Debug)]
pub enum RecordText {
    Track,
    PlayDate,
    Achievement,
    Deluxscore,
    RatingDelta,
    OpponentAchievement,
}

/// Why a play record page could not be read.
#[derive(Clone, PartialEq, Eq, Debug)]
pub enum PlayRecordError {
    /// The page could not be walked: a selector was refused or an element
    /// was not found again.
    Walk,
    Missing(RecordPart),
    Img(RecordImg, ImgSrcError),
    Text(RecordText, FieldError),
    Playlog(PlaylogError),
    /// A rating is no number from 0 to 65535.
    Rating,
    /// The track number is 0; the page shows 1 to 4.
    TrackZero,
}

fn as_str(o: &Option<String>) -> (r: Option<&str>)
    ensures
        opt_view(r) == o.deep_view(),
{
    match o {
        Some(s) => Some(s.as_str()),
        None => None,
    }
}

fn img_err<T>(part: RecordImg, r: Result<T, ImgSrcError>) -> (out: Result<T, PlayRecordError>)
    ensures
        match r {
            Ok(v) => out == Ok::<T, PlayRecordError>(v),
            Err(e) => out == Err::<T, PlayRecordError>(PlayRecordError::Img(part, e)),
        },
{
    match r {
        Ok(v) => Ok(v),
        Err(e) => Err(PlayRecordError::Img(part, e)),
    }
}

fn text_err<T>(part: RecordText, r: Result<T, FieldError>) -> (out: Result<T, PlayRecordError>)
    ensures
        match r {
            Ok(v) => out == Ok::<T, PlayRecordError>(v),
            Err(e) => out == Err::<T, PlayRecordError>(PlayRecordError::Text(part, e)),
        },
{
    match r {
        Ok(v) => Ok(v),
        Err(e) => Err(PlayRecordError::Text(part, e)),
    }
}

fn playlog_err<T>(r: Result<T, PlaylogError>) -> (out: Result<T, PlayRecordError>)
    ensures
        match r {
            Ok(v) => out == Ok::<T, PlayRecordError>(v),
            Err(e) => out == Err::<T, PlayRecordError>(PlayRecordError::Playlog(e)),
        },
{
    match r {
        Ok(v) => Ok(v),
        Err(e) => Err(PlayRecordError::Playlog(e)),
    }
}

fn present<T>(o: Option<T>, part: RecordPart) -> (r: Result<T, PlayRecordError>)
    ensures
        match o {
            Some(v) => r == Ok::<T, PlayRecordError>(v),
            None => r == Err::<T, PlayRecordError>(PlayRecordError::Missing(part)),
        },
{
    match o {
        Some(v) => Ok(v),
        None => Err(PlayRecordError::Missing(part)),
    }
}

/// The `src` is one of two addresses.
fn src_is(src: &Option<String>, a: &str, b: &str) -> (r: bool)
    ensures
        r == (src.deep_view() == Some(a@) || src.deep_view() == Some(b@)),
{
    match src {
        Some(s) => str_eq(s.as_str(), a) || str_eq(s.as_str(), b),
        None => false,
    }
}

fn utage_metadata(imgs: &Vec<UtageImg>) -> (r: Result<UtageMetadata, PlayRecordError>)
    ensures
        r matches Err(e) ==> !(e is Walk),
        r is Ok <==> utage_imgs_ok(imgs@),
{
    let mut kind: Option<UtageKind> = None;
    let mut buddy = false;
    let mut i: usize = 0;
    while i < imgs.len()
        invariant
            i <= imgs@.len(),
            kind is None <==> forall|j: int| 0 <= j < i ==> !is_kind_icon(#[trigger] imgs@[j]),
            kind is Some ==> utage_imgs_ok(imgs@),
        decreases imgs@.len() - i,
    {
        let im = &imgs[i];
        if kind.is_none() && src_is(
            &im.src,
            "https://maimaidx.jp/maimai-mobile/img/music_utage.png",
            "https://maimaidx-eng.com/maimai-mobile/img/music_utage.png",
        ) {
            proof {
                assert(first_kind_icon(imgs@, i as int));
            }
            let t = match as_str(&im.next_text) {
                Some(t) => t,
                None => {
                    proof {
                        assert forall|k: int| !(#[trigger] first_kind_icon(imgs@, k) && imgs@[k].next_text is Some) by {
                            if first_kind_icon(imgs@, k) {
                                if k < i {
                                    assert(!is_kind_icon(imgs@[k]));
                                } else if k > i {
                                    assert(!is_kind_icon(imgs@[i as int]));
                                }
                            }
                        }
                    }
                    return Err(PlayRecordError::Missing(RecordPart::UtageKindText));
                },
            };
            kind = Some(parse_utage_kind(t));
        }
        if src_is(
            &im.src,
            "https://maimaidx.jp/maimai-mobile/img/music_utage_buddy.png",
            "https://maimaidx-eng.com/maimai-mobile/img/music_utage_buddy.png",
        ) {
            buddy = true;
        }
        i = i + 1;
    }
    let kind = match kind {
        Some(k) => k,
        None => {
            proof {
                assert forall|k: int| !(#[trigger] first_kind_icon(imgs@, k) && imgs@[k].next_text is Some) by {
                    if first_kind_icon(imgs@, k) {
                        assert(!is_kind_icon(imgs@[k]));
                    }
                }
            }
            return Err(PlayRecordError::Missing(RecordPart::UtageKindIcon));
        },
    };
    Ok(UtageMetadata { kind, buddy })
}

/// What a rating block says: the rating, and the border color of the image
/// before it.
pub open spec fn rating_block_read(b: Option<RatingBlockFields>, v: RatingValue, c: RatingBorderColor) -> bool {
    &&& b matches Some(x)
    &&& parse_unsigned(x.text@, 65535) == Some(v.spec_get() as nat)
    &&& x.color_img matches Some(Some(src))
    &&& rating_color_of_src(src@) == Some(c)
}

/// What the rating detail block says of the rating result.
pub open spec fn rating_detail_read(d: RatingDetailFields, x: RatingResult) -> bool {
    &&& rating_block_read(d.block, x.rating, x.border_color)
    &&& d.after matches Some(af)
    &&& af@.len() >= 2
    &&& af@[0].0 matches Some(sign)
    &&& delta_sign_of_src(sign@) == Some(x.delta_sign)
    &&& af@[1].1 matches Some(t)
    &&& rating_delta_text_value(t@) == Some(x.delta as int)
}

fn read_rating(b: &Option<RatingBlockFields>) -> (r: Result<(RatingValue, RatingBorderColor), PlayRecordError>)
    ensures
        r matches Ok((v, c)) ==> rating_block_read(*b, v, c),
        r matches Err(e) ==> !(e is Walk),
        r is Ok <==> rating_block_ok(*b),
{
    let b = match b {
        Some(x) => x,
        None => {
            return Err(PlayRecordError::Missing(RecordPart::RatingBlock));
        },
    };
    let rating = match parse_unsigned_max(b.text.as_str(), 65535) {
        Some(v) => v,
        None => {
            return Err(PlayRecordError::Rating);
        },
    };
    let color_src = present(b.color_img.as_ref(), RecordPart::RatingColorImg)?;
    let color = img_err(RecordImg::RatingColor, parse_rating_color(as_str(color_src)))?;
    Ok((RatingValue::from_u16(rating as u16), color))
}

fn read_opponent(vs: &Option<VsFields>) -> (r: Result<(BattleKind, BattleOpponent), PlayRecordError>)
    ensures
        r matches Err(e) ==> !(e is Walk),
        r is Ok <==> opponent_ok(Some(*vs)),
        r matches Ok((k, _)) ==> opponent_kind(*vs) == Some(k),
{
    let outer = present(vs.as_ref(), RecordPart::OpponentOuter)?;
    let left = present(outer.left.as_ref(), RecordPart::OpponentLeft)?;
    let kind_src = present(left.kind_img.as_ref(), RecordPart::OpponentKindImg)?;
    let kind = img_err(RecordImg::BattleKind, parse_battle_kind_img(as_str(kind_src)))?;
    let w = present(left.wrapping.as_ref(), RecordPart::OpponentBlock)?;
    let name = present(w.0.as_ref(), RecordPart::OpponentName)?;
    let ach = present(w.1.as_ref(), RecordPart::OpponentAchievement)?;
    let achievement_value = text_err(RecordText::OpponentAchievement, parse_achievement_txt(ach.as_str()))?;
    let right = present(outer.right.as_ref(), RecordPart::OpponentRight)?;
    let (rating, border_color) = read_rating(right)?;
    Ok((kind, BattleOpponent { user_name: UserName(name.clone()), achievement_value, rating, border_color }))
}

fn judge_row_at(rows: &Vec<Vec<String>>, i: usize) -> (r: Result<JudgeCount, PlayRecordError>)
    ensures
        r matches Err(e) ==> !(e is Walk),
        r is Ok <==> (i < rows@.len() && judge_ok(rows@[i as int])),
        r matches Ok(c) ==> judge_row(Seq::new(rows@[i as int]@.len(), |k: int| judge_cell(rows@[i as int]@[k]@)->0))
            == Some(c),
{
    if i < rows.len() {
        playlog_err(parse_judge_count_row(&rows[i]))
    } else {
        Err(PlayRecordError::Missing(RecordPart::JudgeRow))
    }
}

fn read_rating_detail(d: &RatingDetailFields) -> (r: Result<RatingResult, PlayRecordError>)
    ensures
        r matches Ok(x) ==> rating_detail_read(*d, x),
        r matches Err(e) ==> !(e is Walk),
        r is Ok <==> rating_detail_ok(*d),
{
    let (rating, border_color) = read_rating(&d.block)?;
    let after = present(d.after.as_ref(), RecordPart::RatingParent)?;
    if after.len() == 0 {
        return Err(PlayRecordError::Missing(RecordPart::DeltaSign));
    }
    let delta_sign = img_err(RecordImg::DeltaSign, parse_delta_sign(as_str(&after[0].0)))?;
    if after.len() < 2 {
        return Err(PlayRecordError::Missing(RecordPart::DeltaDiv));
    }
    let span = present(as_str(&after[1].1), RecordPart::DeltaSpan)?;
    let delta = text_err(RecordText::RatingDelta, parse_rating_delta(span))?;
    Ok(RatingResult { rating, delta, delta_sign, border_color })
}

/// The image marks the utage kind.
pub open spec fn is_kind_icon(u: UtageImg) -> bool {
    u.src.deep_view() == Some("https://maimaidx.jp/maimai-mobile/img/music_utage.png"@) || u.src.deep_view() == Some(
        "https://maimaidx-eng.com/maimai-mobile/img/music_utage.png"@,
    )
}

/// `imgs[k]` is the first image that marks the utage kind.
pub open spec fn first_kind_icon(imgs: Seq<UtageImg>, k: int) -> bool {
    &&& 0 <= k < imgs.len()
    &&& is_kind_icon(imgs[k])
    &&& forall|j: int| 0 <= j < k ==> !is_kind_icon(#[trigger] imgs[j])
}

/// The utage images read: the first kind image has an element after it.
pub open spec fn utage_imgs_ok(imgs: Seq<UtageImg>) -> bool {
    exists|k: int| #[trigger] first_kind_icon(imgs, k) && imgs[k].next_text is Some
}

/// The `src` of an image that is there, read by `of`.
pub open spec fn src_reads<T>(o: Option<Option<String>>, of: spec_fn(Seq<char>) -> Option<T>) -> bool {
    match o {
        Some(Some(s)) => of(s@) is Some,
        _ => false,
    }
}

/// An optional image that, when it is there, reads.
pub open spec fn opt_src_reads<T>(o: Option<Option<String>>, of: spec_fn(Seq<char>) -> Option<T>) -> bool {
    o is None || src_reads(o, of)
}

/// The top block reads.
pub open spec fn top_ok(f: TopFields) -> bool {
    &&& src_reads(f.diff_img, |s: Seq<char>| playlog_diff_of_src(s))
    &&& match f.utage_imgs {
        None => true,
        Some(imgs) => utage_imgs_ok(imgs@),
    }
    &&& opt_src_reads(f.vs_img, |s: Seq<char>| battle_kind_of_src(s))
    &&& opt_src_reads(f.vs_result_img, |s: Seq<char>| vs_result_of_src(s))
    &&& match f.track_text {
        Some(t) => match track_text_value_from(t@, 0) {
            Some(n) => n != 0,
            None => false,
        },
        None => false,
    }
    &&& match f.date_text {
        Some(d) => play_date_seconds(d@) is Some,
        None => false,
    }
}

/// An achievement text reads.
pub open spec fn ach_ok(a: Option<String>) -> bool {
    match a {
        Some(t) => match achievement_text_value(t@) {
            Some(v) => v <= MAX_ACHIEVEMENT,
            None => false,
        },
        None => false,
    }
}

/// The images among the elements after the score block, in order.
pub open spec fn img_srcs(after: Seq<(bool, Option<String>)>) -> Seq<Option<String>>
    decreases after.len(),
{
    if after.len() == 0 {
        Seq::empty()
    } else {
        let prev = img_srcs(after.drop_last());
        if after.last().0 {
            prev.push(after.last().1)
        } else {
            prev
        }
    }
}

/// The full combo and full sync images, and the matching rank image if
/// there is a third, read.
pub open spec fn result_imgs_ok(srcs: Seq<Option<String>>) -> bool {
    &&& srcs.len() >= 2
    &&& src_reads(Some(srcs[0]), |s: Seq<char>| full_combo_of_src(s))
    &&& src_reads(Some(srcs[1]), |s: Seq<char>| full_sync_of_src(s))
    &&& srcs.len() > 2 ==> src_reads(Some(srcs[2]), |s: Seq<char>| matching_rank_of_src(s))
}

/// The life block, if there is one, reads.
pub open spec fn life_ok(l: Option<(String, Vec<Option<String>>)>) -> bool {
    match l {
        None => true,
        Some(x) => ratio_of_text(x.0@, "/"@) is Ok && (perfect_challenge_icons(src_views(x.1@)) || course_icons(
            src_views(x.1@),
        )),
    }
}

/// A rating block reads.
pub open spec fn rating_block_ok(b: Option<RatingBlockFields>) -> bool {
    match b {
        Some(x) => parse_unsigned(x.text@, 65535) is Some && src_reads(x.color_img, |s: Seq<char>| rating_color_of_src(s)),
        None => false,
    }
}

/// The opponent block, if there is one, reads.
pub open spec fn opponent_ok(vs: Option<Option<VsFields>>) -> bool {
    match vs {
        None => true,
        Some(None) => false,
        Some(Some(o)) => match o.left {
            None => false,
            Some(l) => {
                &&& src_reads(l.kind_img, |s: Seq<char>| battle_kind_of_src(s))
                &&& match l.wrapping {
                    Some(w) => w.0 is Some && ach_ok(w.1),
                    None => false,
                }
                &&& match o.right {
                    Some(rb) => rating_block_ok(rb),
                    None => false,
                }
            },
        },
    }
}

/// A row of the judgement table reads.
pub open spec fn judge_ok(cells: Vec<String>) -> bool {
    &&& forall|i: int| 0 <= i < cells@.len() ==> judge_cell(#[trigger] cells@[i]@) is Some
    &&& judge_row(Seq::new(cells@.len(), |i: int| judge_cell(cells@[i]@)->0)) is Some
}

/// The break row has critical perfects.
pub open spec fn judge_cp(cells: Vec<String>) -> bool {
    judge_row(Seq::new(cells@.len(), |i: int| judge_cell(cells@[i]@)->0)) matches Some(JudgeCount::JudgeCountWithCP(_))
}

/// The rating detail block reads.
pub open spec fn rating_detail_ok(rd: RatingDetailFields) -> bool {
    &&& rating_block_ok(rd.block)
    &&& match rd.after {
        Some(af) => {
            &&& af@.len() >= 2
            &&& match af@[0].0 {
                Some(sign) => delta_sign_of_src(sign@) is Some,
                None => false,
            }
            &&& match af@[1].1 {
                Some(t) => match rating_delta_text_value(t@) {
                    Some(v) => i16::MIN <= v <= i16::MAX,
                    None => false,
                },
                None => false,
            }
        },
        None => false,
    }
}

/// The gray block reads.
pub open spec fn gray_ok(g: GrayFields) -> bool {
    &&& forall|i: int| 0 <= i < g.charas@.len() ==> chara_ok(#[trigger] g.charas@[i])
    &&& 1 <= chara_views(g.charas@).len() <= 5
    &&& match g.fl {
        Some(v) => v@.len() >= 2 && count_text(v@[0]@) is Some && count_text(v@[1]@) is Some,
        None => false,
    }
    &&& match g.rows {
        Some(rs) => rs@.len() >= 5 && judge_ok(rs@[0]) && judge_ok(rs@[1]) && judge_ok(rs@[2]) && judge_ok(rs@[3])
            && judge_ok(rs@[4]) && judge_cp(rs@[4]),
        None => false,
    }
    &&& match g.rating {
        Some(rd) => rating_detail_ok(rd),
        None => false,
    }
    &&& g.score_blocks@.len() >= 2
    &&& match g.score_blocks@[0] {
        Some(t) => t@ != seq!['―'] && ratio_of_text(t@, "/"@) is Ok,
        None => false,
    }
    &&& match g.score_blocks@[1] {
        Some(t) => t@ == seq!['―'] || ratio_of_text(t@, "/"@) is Ok,
        None => false,
    }
}

/// The other players' block, if there is one, reads.
pub open spec fn other_players_ok(m: Option<Vec<MatchingSpan>>) -> bool {
    match m {
        None => true,
        Some(spans) => (forall|i: int| 0 <= i < spans@.len() ==> span_reads(#[trigger] spans@[i])) && 1 <= span_players(
            spans@,
        ).len() <= 3,
    }
}

/// The battle images and the opponent block are all there, of the same
/// kind, or all missing.
pub open spec fn battle_consistent(f: TopFields, vs: Option<Option<VsFields>>) -> bool {
    if f.vs_img is None && f.vs_result_img is None && vs is None {
        true
    } else {
        match (f.vs_img, f.vs_result_img, vs) {
            (Some(Some(k)), Some(_), Some(Some(o))) => match o.left {
                Some(l) => match l.kind_img {
                    Some(Some(k2)) => battle_kind_of_src(k@) == battle_kind_of_src(k2@),
                    _ => false,
                },
                None => false,
            },
            _ => false,
        }
    }
}

/// The maximum sync, the other players and the matching rank are all
/// there, or all missing on a play without full sync.
pub open spec fn matching_consistent(srcs: Seq<Option<String>>, sync: Option<String>, m: Option<Vec<MatchingSpan>>) -> bool {
    let has_sync = match sync {
        Some(t) => t@ != seq!['―'],
        None => false,
    };
    if has_sync {
        m is Some && srcs.len() > 2
    } else {
        m is None && srcs.len() <= 2 && match srcs[1] {
            Some(fs) => full_sync_of_src(fs@) == Some(FullSyncKind::Nothing),
            None => false,
        }
    }
}

/// The kind that the opponent block's image shows.
pub open spec fn opponent_kind(vs: Option<VsFields>) -> Option<BattleKind> {
    match vs {
        Some(o) => match o.left {
            Some(l) => match l.kind_img {
                Some(Some(k)) => battle_kind_of_src(k@),
                _ => None,
            },
            None => None,
        },
        None => None,
    }
}

/// The page reads as a play record.
pub open spec fn record_ok(p: PlayRecordPage, place_expected: bool) -> bool {
    &&& p.top matches Some(tp)
    &&& top_ok(tp.fields)
    &&& tp.main matches Some(m)
    &&& m.basic matches Some(b)
    &&& match b.1 {
        None => true,
        Some(Some(c)) => is_clear_img(c@),
        Some(None) => false,
    }
    &&& m.music_img matches Some(Some(mis))
    &&& match m.generation_img {
        None => playlog_diff_of_src(tp.fields.diff_img->0->0@) == Some(ScoreDifficulty::Utage),
        Some(g) => src_reads(Some(g), |s: Seq<char>| score_generation_of_src(s)),
    }
    &&& m.result matches Some(res)
    &&& ach_ok(res.ach_text)
    &&& src_reads(res.rank_img, |s: Seq<char>| achievement_rank_of_src(s))
    &&& res.score matches Some(Some(sb))
    &&& sb.dx matches Some(dx)
    &&& ratio_of_text(trim_spec(dx.0@), " / "@) is Ok
    &&& opt_src_reads(dx.1, |s: Seq<char>| dxstar_of_src(s))
    &&& result_imgs_ok(img_srcs(sb.after@))
    &&& life_ok(res.life)
    &&& url_text(mis@) is Some
    &&& opponent_ok(p.vs)
    &&& !(place_expected && p.place is None)
    &&& tp.gray matches Some(Some(g))
    &&& gray_ok(g)
    &&& other_players_ok(p.matching)
    &&& battle_consistent(tp.fields, p.vs)
    &&& matching_consistent(img_srcs(sb.after@), g.score_blocks@[1], p.matching)
}

/// What a read play record says of the page it was read from: the index it
/// was asked for, the time, track, difficulty, title, achievement and
/// rating the page shows, and the place exactly when it was expected.
pub open spec fn record_read(p: PlayRecordPage, idx: Idx, place_expected: bool, rec: PlayRecord) -> bool {
    &&& rec.played_at.idx == idx
    &&& p.top matches Some(tp)
    &&& tp.fields.date_text matches Some(d)
    &&& play_date_seconds(d@) matches Some(secs)
    &&& rec.played_at.time == PlayTime::from_seconds_spec(secs as int)
    &&& tp.fields.track_text matches Some(tt)
    &&& track_text_value_from(tt@, 0) == Some(rec.played_at.track.value() as nat)
    &&& tp.fields.diff_img matches Some(Some(ds))
    &&& playlog_diff_of_src(ds@) == Some(rec.score_metadata.difficulty)
    &&& tp.main matches Some(m)
    &&& m.basic matches Some(b)
    &&& rec.song_metadata.name.0@ == b.0@
    &&& m.result matches Some(res)
    &&& res.ach_text matches Some(a)
    &&& achievement_text_value(a@) == Some(rec.achievement_result.value.spec_get() as nat)
    &&& rec.achievement_result.new_record == res.ach_new
    &&& rec.cleared == (b.1 is Some)
    &&& match m.generation_img {
        Some(Some(gs)) => score_generation_of_src(gs@) == Some(rec.score_metadata.generation),
        Some(None) => false,
        None => rec.score_metadata.difficulty == ScoreDifficulty::Utage && rec.score_metadata.generation
            == ScoreGeneration::Deluxe,
    }
    &&& res.rank_img matches Some(Some(rs))
    &&& achievement_rank_of_src(rs@) == Some(rec.achievement_result.rank)
    &&& res.score matches Some(Some(sb))
    &&& sb.dx matches Some(dx)
    &&& ratio_of_text(trim_spec(dx.0@), " / "@) == Ok::<(u32, u32), FieldError>(
        (rec.deluxscore_result.score.value_spec(), rec.deluxscore_result.score.max_spec()),
    )
    &&& rec.deluxscore_result.new_record == sb.dx_new
    &&& tp.gray matches Some(Some(g))
    &&& g.fl matches Some(fl)
    &&& fl@.len() >= 2
    &&& count_text(fl@[0]@) == Some(rec.judge_result.fast)
    &&& count_text(fl@[1]@) == Some(rec.judge_result.late)
    &&& g.rating matches Some(rd)
    &&& rating_detail_read(rd, rec.rating_result)
    &&& (rec.utage_metadata is Some <==> tp.fields.utage_imgs is Some)
    &&& (rec.battle_result is Some <==> p.vs is Some)
    &&& (place_expected ==> rec.played_at.place is Some)
    &&& (rec.played_at.place matches Some(pl) ==> p.place matches Some(t) && pl.0@ == t@)
}

/// Reads a play record from what its page holds; `place_expected` asks for
/// the place of the play to be shown.
#[verifier::rlimit(100)]
#[verifier::spinoff_prover]
pub fn parse_play_record_page(p: &PlayRecordPage, idx: Idx, place_expected: bool) -> (r: Result<
    PlayRecord,
    PlayRecordError,
>)
    ensures
        r matches Ok(rec) ==> record_read(*p, idx, place_expected, rec),
        p.top is None ==> r == Err::<PlayRecord, PlayRecordError>(PlayRecordError::Missing(RecordPart::TopContainer)),
        r matches Err(e) ==> !(e is Walk),
        r is Ok <==> record_ok(*p, place_expected),
{
    let tp = present(p.top.as_ref(), RecordPart::TopContainer)?;
    let top = &tp.fields;
    // The top block: chart, utage kind, battle, track and date.
    let diff_src = present(top.diff_img.as_ref(), RecordPart::DifficultyImg)?;
    let difficulty = img_err(RecordImg::Difficulty, parse_playlog_diff(as_str(diff_src)))?;
    let utage_metadata = match &top.utage_imgs {
        None => None,
        Some(imgs) => Some(utage_metadata(imgs)?),
    };
    let battle_kind = match &top.vs_img {
        None => None,
        Some(s) => Some(img_err(RecordImg::BattleKind, parse_battle_kind_img(as_str(s)))?),
    };
    let battle_win_or_lose = match &top.vs_result_img {
        None => None,
        Some(s) => Some(img_err(RecordImg::BattleResult, parse_playlog_vs_result(as_str(s)))?),
    };
    let track_text = present(as_str(&top.track_text), RecordPart::TrackSpan)?;
    if first_track_number(track_text) == Some(0) {
        return Err(PlayRecordError::TrackZero);
    }
    let track = text_err(RecordText::Track, parse_track_index(track_text))?;
    let date_text = present(as_str(&top.date_text), RecordPart::DateSpan)?;
    let time = text_err(RecordText::PlayDate, parse_play_date(date_text))?;

    // The main block: song, clear, generation and results.
    let main = present(tp.main.as_ref(), RecordPart::MainBlock)?;
    let basic = present(main.basic.as_ref(), RecordPart::BasicBlock)?;
    let title = &basic.0;
    let clear_src: Option<Option<&str>> = match &basic.1 {
        None => None,
        Some(s) => Some(as_str(s)),
    };
    let cleared = playlog_err(parse_cleared(clear_src))?;
    let music_img = present(main.music_img.clone(), RecordPart::MusicImg)?;
    let music_img_src = present(music_img, RecordPart::MusicImgSrc)?;
    let generation = match &main.generation_img {
        None => None,
        Some(s) => Some(img_err(RecordImg::Generation, parse_score_generation_img(as_str(s)))?),
    };
    let res = present(main.result.as_ref(), RecordPart::ResultBlock)?;
    let ach_text = present(as_str(&res.ach_text), RecordPart::AchievementText)?;
    let value = text_err(RecordText::Achievement, parse_achievement_txt(ach_text))?;
    let rank_src = present(res.rank_img.as_ref(), RecordPart::ScoreRankImg)?;
    let rank = img_err(RecordImg::ScoreRank, parse_achievement_rank(as_str(rank_src)))?;
    let achievement_result = AchievementResult { new_record: res.ach_new, value, rank };
    let score = present(res.score.as_ref(), RecordPart::InnerBlock)?;
    let sb = present(score.as_ref(), RecordPart::ScoreBlock)?;
    let dx = present(sb.dx.as_ref(), RecordPart::DeluxscoreDiv)?;
    let deluxscore = text_err(RecordText::Deluxscore, parse_deluxscore(dx.0.as_str()))?;
    let dx_rank = match &dx.1 {
        Some(s) => img_err(RecordImg::DxStar, parse_dxstar(as_str(s)))?,
        None => match DeluxscoreRank::try_from_u8(0) {
            Ok(x) => x,
            Err(_) => {
                return Err(PlayRecordError::Missing(RecordPart::DeluxscoreDiv));
            },
        },
    };
    let deluxscore_result = DeluxscoreResult { new_record: sb.dx_new, score: deluxscore, rank: dx_rank };
    let mut result_imgs: Vec<Option<String>> = Vec::new();
    let mut i: usize = 0;
    proof {
        assert(sb.after@.take(0) =~= Seq::<(bool, Option<String>)>::empty());
    }
    while i < sb.after.len()
        invariant
            i <= sb.after@.len(),
            result_imgs@ == img_srcs(sb.after@.take(i as int)),
        decreases sb.after@.len() - i,
    {
        proof {
            assert(sb.after@.take(i + 1).drop_last() =~= sb.after@.take(i as int));
        }
        if sb.after[i].0 {
            result_imgs.push(sb.after[i].1.clone());
        }
        i = i + 1;
    }
    proof {
        assert(sb.after@.take(i as int) =~= sb.after@);
    }
    if result_imgs.len() < 1 {
        return Err(PlayRecordError::Missing(RecordPart::FullComboImg));
    }
    let full_combo_kind = img_err(RecordImg::FullCombo, parse_full_combo_img(as_str(&result_imgs[0])))?;
    if result_imgs.len() < 2 {
        return Err(PlayRecordError::Missing(RecordPart::FullSyncImg));
    }
    let full_sync_kind = img_err(RecordImg::FullSync, parse_full_sync_img(as_str(&result_imgs[1])))?;
    let matching_rank = if result_imgs.len() > 2 {
        Some(img_err(RecordImg::MatchingRank, parse_matching_rank_img(as_str(&result_imgs[2])))?)
    } else {
        None
    };
    let life_result = match &res.life {
        Some((text, icons)) => playlog_err(parse_life_block(text.as_str(), icons))?,
        None => LifeResult::Nothing,
    };
    let song_metadata = SongMetadata {
        name: SongName(title.clone()),
        cover_art: playlog_err(cover_art(music_img_src.as_str()))?,
    };
    let generation = playlog_err(record_generation(difficulty, generation))?;

    // The opponent of a battle, and the place.
    let battle_opponent = match &p.vs {
        None => None,
        Some(v) => Some(read_opponent(v)?),
    };
    let place = match &p.place {
        Some(t) => Some(PlaceName(t.clone())),
        None => None,
    };
    let place = playlog_err(checked_place(place_expected, place))?;

    // The gray block: tour members, judgements, rating, combo and sync.
    let gray = present(tp.gray.as_ref(), RecordPart::GrayParent)?;
    let gray = present(gray.as_ref(), RecordPart::GrayBlock)?;
    let tour_members = playlog_err(tour_members(&gray.charas))?;
    let fl = present(gray.fl.as_ref(), RecordPart::FastLate)?;
    let fast_text: Option<&str> = if fl.len() > 0 {
        Some(fl[0].as_str())
    } else {
        None
    };
    let late_text: Option<&str> = if fl.len() > 1 {
        Some(fl[1].as_str())
    } else {
        None
    };
    let (fast, late) = playlog_err(parse_fast_late(fast_text, late_text))?;
    let rows = present(gray.rows.as_ref(), RecordPart::NotesTable)?;
    let tap = judge_row_at(rows, 0)?;
    let hold = judge_row_at(rows, 1)?;
    let slide = judge_row_at(rows, 2)?;
    let touch = judge_row_at(rows, 3)?;
    let break_ = playlog_err(break_counts(judge_row_at(rows, 4)?))?;
    let judge_result = JudgeResult { fast, late, tap, hold, slide, touch, break_ };
    let detail = present(gray.rating.as_ref(), RecordPart::RatingDetail)?;
    let rating_result = read_rating_detail(detail)?;
    if gray.score_blocks.len() < 1 {
        return Err(PlayRecordError::Missing(RecordPart::MaxCombo));
    }
    let max_combo = playlog_err(parse_max_combo_sync(as_str(&gray.score_blocks[0]), PlaylogPart::MaxCombo))?;
    let max_combo = playlog_err(required_max_combo(max_combo))?;
    if gray.score_blocks.len() < 2 {
        return Err(PlayRecordError::Missing(RecordPart::MaxSync));
    }
    let max_sync = playlog_err(parse_max_combo_sync(as_str(&gray.score_blocks[1]), PlaylogPart::MaxSync))?;

    // The other players of a session.
    let other_players = match &p.matching {
        None => None,
        Some(spans) => Some(playlog_err(parse_other_players(spans))?),
    };
    let battle_result = playlog_err(battle_result(battle_kind, battle_win_or_lose, battle_opponent))?;
    let matching_result = playlog_err(matching_result(full_sync_kind, max_sync, other_players, matching_rank))?;
    let rec = PlayRecord {
        played_at: PlayedAt { idx, time, place, track },
        song_metadata,
        score_metadata: ScoreMetadata { generation, difficulty },
        utage_metadata,
        cleared,
        achievement_result,
        deluxscore_result,
        combo_result: ComboResult { full_combo_kind, combo: max_combo },
        battle_result,
        matching_result,
        life_result,
        tour_members,
        rating_result,
        judge_result,
    };
    Ok(rec)
}

/// What a play record page whose walk gave `p` is read as: a record
/// exactly when it reads, one that says what `record_read` says; no record
/// without a top block.
pub open spec fn page_result(p: PlayRecordPage, idx: Idx, place_expected: bool, r: Result<PlayRecord, PlayRecordError>) -> bool {
    &&& (r is Ok <==> record_ok(p, place_expected))
    &&& (r matches Ok(rec) ==> record_read(p, idx, place_expected, rec))
    &&& (p.top is None ==> r == Err::<PlayRecord, PlayRecordError>(PlayRecordError::Missing(RecordPart::TopContainer)))
    &&& (r matches Err(e) ==> !(e is Walk))
}

/// Reads a play record page: walks it (see `page_at`), then reads what it
/// took as `parse_play_record_page` does; `place_expected` asks for the
/// place of the play to be shown.
pub fn parse_play_record(html: &str, idx: Idx, place_expected: bool) -> (r: Result<PlayRecord, PlayRecordError>)
    ensures
        (forall|p: PlayRecordPage| !page_at(html@, p)) ==> r == Err::<PlayRecord, PlayRecordError>(
            PlayRecordError::Walk,
        ),
        (exists|p: PlayRecordPage| page_at(html@, p)) ==> exists|p: PlayRecordPage|
            #[trigger] page_at(html@, p) && page_result(p, idx, place_expected, r),
{
    match read_play_record_page(html) {
        None => Err(PlayRecordError::Walk),
        Some(p) => {
            let r = parse_play_record_page(&p, idx, place_expected);
            proof {
                assert(page_at(html@, p));
            }
            r
        },
    }
}

} // verus!
