use vstd::prelude::*;

use crate::dom::{
    attr, element_attr, element_text, first, first_attr, first_attr_of, first_match, first_text, first_text_of,
    following, following_elements, parent, parent_element, select, selected, text,
};
use crate::maimai::parser::img_src::ImgSrcError;
use crate::maimai::parser::play_record::{
    achievement_text_value, parse_achievement_txt, parse_deluxscore, parse_playlog_diff,
    playlog_diff_of_src, ratio_of_text, FieldError,
};
use crate::maimai::parser::song_score::{
    achievement_rank_of_src, combine_score_result, full_combo_of_src, full_sync_of_src,
    generation_of_suffix, img_error, img_read, opt_string_view, parse_score_generation,
    parse_score_ranks, ScoreEntry, ScoreEntryError, ScoreIdx, ScoreResult,
};
use crate::maimai::rating::{parse_level_spec, ScoreLevel, ScoreLevelParseError};
use crate::maimai::schema::latest::{
    AchievementValue, FullComboKind, FullSyncKind, AchievementRank, ScoreMetadata, SongName,
    ValueWithMax, MAX_ACHIEVEMENT,
};
use crate::maimai::song_list::song_score::EntryGroup;
use crate::text::trim_spec;

verus! {

/// What an entry form of the score list holds, as found on the page. An
/// image or an input is `None` when it is missing and `Some(None)` when it
/// lacks the attribute; a text is `None` when its block is missing.
#[derive(Clone, Debug)]
pub struct ScoreFormFields {
    /// The `src` of the difficulty image (`img.h_20`).
    pub difficulty_img: Option<Option<String>>,
    /// The `src` of the generation image inside the form, if there is one.
    pub generation_inside: Option<String>,
    /// The `src` of the element after the form's wrapper (`None` when the
    /// form has no parent element or the parent no following element).
    pub generation_outside: Option<Option<String>>,
    /// The text of the level block.
    pub level: Option<String>,
    /// The text of the song name block.
    pub song_name: Option<String>,
    /// The text of the achievement block.
    pub achievement: Option<String>,
    /// The text of the DX score block.
    pub deluxscore: Option<String>,
    /// The `src` of the first (at most three) rank images.
    pub rank_imgs: Vec<Option<String>>,
    /// The `value` of the first input.
    pub idx_input: Option<Option<String>>,
}

/// The text of a heading of the score list and the entry forms after it.
#[derive(Clone, Debug)]
pub struct ScoreGroupFields {
    pub label: String,
    pub forms: Vec<ScoreFormFields>,
}

/// A part of an entry form that was not found.
#[derive(Clone, Copy, PartialEq, Eq, Structural, Debug)]
pub enum ScorePart {
    DifficultyImg,
    GenerationSibling,
    Level,
    SongName,
    IdxInput,
}

/// Why the score list could not be read.
#[derive(Clone, PartialEq, Eq, Debug)]
pub enum ScoreListError {
    Missing(ScorePart),
    Difficulty(ImgSrcError),
    Entry(ScoreEntryError),
    Level(ScoreLevelParseError),
    Achievement(FieldError),
    Deluxscore(FieldError),
    /// The idx input has no value.
    NoIdxValue,
    /// The page could not be walked: a selector was refused or an element
    /// was not found again.
    Walk,
}

/// The result put together from what was read: all of achievement, DX
/// score and rank images, or none.
pub open spec fn combined(
    a: Option<nat>,
    d: Option<(u32, u32)>,
    k: Option<(FullComboKind, FullSyncKind, AchievementRank)>,
    r: Result<Option<ScoreResult>, ScoreListError>,
) -> bool {
    match (a, d, k) {
        (Some(v), Some((x, y)), Some((c, s, rk))) => r matches Ok(Some(res)) && res.achievement.spec_get() == v
            && res.deluxscore.value_spec() == x && res.deluxscore.max_spec() == y && res.full_combo_kind == c
            && res.full_sync_kind == s && res.rank == rk,
        (None, None, None) => r == Ok::<Option<ScoreResult>, ScoreListError>(None),
        _ => r == Err::<Option<ScoreResult>, ScoreListError>(ScoreListError::Entry(ScoreEntryError::InconsistentResult)),
    }
}

/// The rank images read: none, or the full-combo, full-sync and rank
/// images (read in that order) of three.
pub open spec fn ranks_read(
    srcs: Seq<Option<String>>,
    a: Option<nat>,
    d: Option<(u32, u32)>,
    r: Result<Option<ScoreResult>, ScoreListError>,
) -> bool {
    if srcs.len() == 0 {
        combined(a, d, None, r)
    } else if srcs.len() != 3 {
        r == Err::<Option<ScoreResult>, ScoreListError>(ScoreListError::Entry(ScoreEntryError::ImageCount(srcs.len() as usize)))
    } else {
        let fc = img_read(opt_string_view(srcs[1]), |s: Seq<char>| full_combo_of_src(s));
        let fs = img_read(opt_string_view(srcs[0]), |s: Seq<char>| full_sync_of_src(s));
        let rk = img_read(opt_string_view(srcs[2]), |s: Seq<char>| achievement_rank_of_src(s));
        match (fc, fs, rk) {
            (Some(x), Some(y), Some(z)) => combined(a, d, Some((x, y, z)), r),
            (None, _, _) => r matches Err(ScoreListError::Entry(ScoreEntryError::Image(e))) && img_error(
                opt_string_view(srcs[1]),
                e,
            ),
            (Some(_), None, _) => r matches Err(ScoreListError::Entry(ScoreEntryError::Image(e))) && img_error(
                opt_string_view(srcs[0]),
                e,
            ),
            (Some(_), Some(_), None) => r matches Err(ScoreListError::Entry(ScoreEntryError::Image(e)))
                && img_error(opt_string_view(srcs[2]), e),
        }
    }
}

/// The result of an entry form, or why it does not read: the achievement,
/// then the DX score, then the rank images, then their agreement.
pub open spec fn form_result(f: ScoreFormFields, r: Result<Option<ScoreResult>, ScoreListError>) -> bool {
    let a = match f.achievement {
        None => Ok(None),
        Some(at) => match achievement_text_value(at@) {
            None => Err(FieldError::Format),
            Some(v) => if v > MAX_ACHIEVEMENT {
                Err(FieldError::OutOfBounds(v as u32))
            } else {
                Ok(Some(v))
            },
        },
    };
    match a {
        Err(e) => r == Err::<Option<ScoreResult>, ScoreListError>(ScoreListError::Achievement(e)),
        Ok(av) => match f.deluxscore {
            None => ranks_read(f.rank_imgs@, av, None, r),
            Some(dt) => match ratio_of_text(trim_spec(dt@), " / "@) {
                Err(e) => r == Err::<Option<ScoreResult>, ScoreListError>(ScoreListError::Deluxscore(e)),
                Ok(p) => ranks_read(f.rank_imgs@, av, Some(p), r),
            },
        },
    }
}

/// The result of the entry form reads.
pub open spec fn form_result_ok(f: ScoreFormFields) -> bool {
    exists|x: Option<ScoreResult>| form_result(f, Ok(x))
}

fn as_str_opt(o: &Option<String>) -> (r: Option<&str>)
    ensures
        match r {
            Some(s) => o matches Some(t) && s@ == t@,
            None => o is None,
        },
{
    match o {
        Some(s) => Some(s.as_str()),
        None => None,
    }
}

fn parse_form_result(f: &ScoreFormFields) -> (r: Result<Option<ScoreResult>, ScoreListError>)
    ensures
        form_result(*f, r),
{
    proof {
        reveal_strlit(" / ");
    }
    let achievement = match &f.achievement {
        None => None,
        Some(t) => match parse_achievement_txt(t.as_str()) {
            Ok(a) => Some(a),
            Err(e) => {
                return Err(ScoreListError::Achievement(e));
            },
        },
    };
    let deluxscore = match &f.deluxscore {
        None => None,
        Some(t) => match parse_deluxscore(t.as_str()) {
            Ok(d) => Some(d),
            Err(e) => {
                return Err(ScoreListError::Deluxscore(e));
            },
        },
    };
    let ranks = match parse_score_ranks(&f.rank_imgs) {
        Ok(k) => k,
        Err(e) => {
            return Err(ScoreListError::Entry(e));
        },
    };
    match combine_score_result(achievement, deluxscore, ranks) {
        Ok(x) => Ok(x),
        Err(e) => Err(ScoreListError::Entry(e)),
    }
}

/// The entry that an entry form gives, or why it gives none: difficulty,
/// generation (the image inside the form or the one after its wrapper,
/// exactly one), level, name, result and idx, in that order.
pub open spec fn form_parsed(f: ScoreFormFields, r: Result<ScoreEntry, ScoreListError>) -> bool {
    match f.difficulty_img {
        None => r == Err::<ScoreEntry, ScoreListError>(ScoreListError::Missing(ScorePart::DifficultyImg)),
        Some(None) => r == Err::<ScoreEntry, ScoreListError>(ScoreListError::Difficulty(ImgSrcError::NoSrc)),
        Some(Some(ds)) => match playlog_diff_of_src(ds@) {
            None => r matches Err(ScoreListError::Difficulty(ImgSrcError::UnknownSrc(u))) && u@ == ds@,
            Some(d) => match f.generation_outside {
                None => r == Err::<ScoreEntry, ScoreListError>(ScoreListError::Missing(ScorePart::GenerationSibling)),
                Some(out) => match (opt_string_view(f.generation_inside), opt_string_view(out)) {
                    (Some(s), None) | (None, Some(s)) => match generation_of_suffix(s) {
                        None => r matches Err(ScoreListError::Entry(ScoreEntryError::UnknownGeneration(u))) && u@ == s,
                        Some(g) => form_rest(f, ScoreMetadata { generation: g, difficulty: d }, r),
                    },
                    _ => r == Err::<ScoreEntry, ScoreListError>(ScoreListError::Entry(ScoreEntryError::GenerationImage)),
                },
            },
        },
    }
}

/// The rest of an entry form, after its chart is known.
pub open spec fn form_rest(f: ScoreFormFields, m: ScoreMetadata, r: Result<ScoreEntry, ScoreListError>) -> bool {
    match f.level {
        None => r == Err::<ScoreEntry, ScoreListError>(ScoreListError::Missing(ScorePart::Level)),
        Some(lt) => match parse_level_spec(lt@) {
            Err(e) => r == Err::<ScoreEntry, ScoreListError>(ScoreListError::Level(e)),
            Ok(level) => match f.song_name {
                None => r == Err::<ScoreEntry, ScoreListError>(ScoreListError::Missing(ScorePart::SongName)),
                Some(name) => if !form_result_ok(f) {
                    r matches Err(e) && form_result(f, Err(e))
                } else {
                    match f.idx_input {
                        None => r == Err::<ScoreEntry, ScoreListError>(ScoreListError::Missing(ScorePart::IdxInput)),
                        Some(None) => r == Err::<ScoreEntry, ScoreListError>(ScoreListError::NoIdxValue),
                        Some(Some(iv)) => r matches Ok(e) && e.metadata == m && e.level == level && e.song_name.0@
                            == name@ && form_result(f, Ok(e.result)) && e.idx.0@ == iv@,
                    }
                },
            },
        },
    }
}

/// The entry form gives an entry.
pub open spec fn form_ok(f: ScoreFormFields) -> bool {
    exists|e: ScoreEntry| form_parsed(f, Ok(e))
}

/// Reads one entry form of the score list.
pub fn parse_form(f: &ScoreFormFields) -> (r: Result<ScoreEntry, ScoreListError>)
    ensures
        form_parsed(*f, r),
{
    let difficulty = match &f.difficulty_img {
        None => {
            return Err(ScoreListError::Missing(ScorePart::DifficultyImg));
        },
        Some(src) => match parse_playlog_diff(as_str_opt(src)) {
            Ok(d) => d,
            Err(e) => {
                return Err(ScoreListError::Difficulty(e));
            },
        },
    };
    let generation = match &f.generation_outside {
        None => {
            return Err(ScoreListError::Missing(ScorePart::GenerationSibling));
        },
        Some(out) => match parse_score_generation(as_str_opt(&f.generation_inside), as_str_opt(out)) {
            Ok(g) => g,
            Err(e) => {
                return Err(ScoreListError::Entry(e));
            },
        },
    };
    let level = match &f.level {
        None => {
            return Err(ScoreListError::Missing(ScorePart::Level));
        },
        Some(t) => match ScoreLevel::from_str(t.as_str()) {
            Ok(l) => l,
            Err(e) => {
                return Err(ScoreListError::Level(e));
            },
        },
    };
    let song_name = match &f.song_name {
        None => {
            return Err(ScoreListError::Missing(ScorePart::SongName));
        },
        Some(n) => SongName(n.clone()),
    };
    let result = match parse_form_result(f) {
        Ok(x) => x,
        Err(e) => {
            proof {
                if form_result_ok(*f) {
                    let x = choose|x: Option<ScoreResult>| form_result(*f, Ok(x));
                    lemma_form_result_unique_kind(*f, Ok(x), Err(e));
                }
            }
            return Err(e);
        },
    };
    let idx = match &f.idx_input {
        None => {
            return Err(ScoreListError::Missing(ScorePart::IdxInput));
        },
        Some(None) => {
            return Err(ScoreListError::NoIdxValue);
        },
        Some(Some(v)) => ScoreIdx(v.clone()),
    };
    Ok(ScoreEntry { metadata: ScoreMetadata { generation, difficulty }, song_name, level, result, idx })
}

/// One form's result cannot both read and fail.
proof fn lemma_form_result_unique_kind(
    f: ScoreFormFields,
    x: Result<Option<ScoreResult>, ScoreListError>,
    y: Result<Option<ScoreResult>, ScoreListError>,
)
    requires
        form_result(f, x),
        form_result(f, y),
    ensures
        x is Ok <==> y is Ok,
{
}

/// Every entry form of the group gives an entry.
pub open spec fn group_ok(g: ScoreGroupFields) -> bool {
    forall|j: int| 0 <= j < g.forms@.len() ==> form_ok(#[trigger] g.forms@[j])
}

/// `out` is the group: its heading, and an entry for each of its forms.
pub open spec fn group_parsed(g: ScoreGroupFields, out: EntryGroup) -> bool {
    &&& out.label@ == g.label@
    &&& out.entries@.len() == g.forms@.len()
    &&& forall|j: int| 0 <= j < g.forms@.len() ==> form_parsed(g.forms@[j], Ok(#[trigger] out.entries@[j]))
}

fn parse_group(g: &ScoreGroupFields) -> (r: Result<EntryGroup, ScoreListError>)
    ensures
        match r {
            Ok(out) => group_parsed(*g, out) && group_ok(*g),
            Err(e) => exists|i: int|
                0 <= i < g.forms@.len() && (forall|j: int| 0 <= j < i ==> form_ok(#[trigger] g.forms@[j]))
                    && form_parsed(#[trigger] g.forms@[i], Err(e)),
        },
{
    let mut entries: Vec<ScoreEntry> = Vec::new();
    let mut i: usize = 0;
    while i < g.forms.len()
        invariant
            0 <= i <= g.forms@.len(),
            entries@.len() == i,
            forall|j: int| 0 <= j < i ==> form_parsed(g.forms@[j], Ok(#[trigger] entries@[j])),
            forall|j: int| 0 <= j < i ==> form_ok(#[trigger] g.forms@[j]),
        decreases g.forms@.len() - i,
    {
        match parse_form(&g.forms[i]) {
            Ok(e) => {
                proof {
                    assert(form_parsed(g.forms@[i as int], Ok(e)));
                }
                entries.push(e);
            },
            Err(e) => {
                proof {
                    assert(form_parsed(g.forms@[i as int], Err(e)));
                }
                return Err(e);
            },
        }
        i = i + 1;
    }
    Ok(EntryGroup { label: g.label.clone(), entries })
}

/// What the score list gives for its groups: the groups in page order, or
/// the error of the first entry form that does not read.
pub open spec fn score_list_result(groups: Seq<ScoreGroupFields>, r: Result<Vec<EntryGroup>, ScoreListError>) -> bool {
    match r {
        Ok(v) => v@.len() == groups.len() && forall|k: int|
            0 <= k < groups.len() ==> group_parsed(groups[k], #[trigger] v@[k]),
        Err(e) => exists|k: int, i: int|
            0 <= k < groups.len() && 0 <= i < groups[k].forms@.len() && (forall|h: int|
                0 <= h < k ==> group_ok(#[trigger] groups[h])) && (forall|j: int|
                0 <= j < i ==> form_ok(#[trigger] groups[k].forms@[j])) && form_parsed(
                #[trigger] groups[k].forms@[i],
                Err(e),
            ),
    }
}

/// Reads the score list, heading by heading: the groups in page order, or
/// the error of the first entry form that does not read.
pub fn parse_score_list(groups: &Vec<ScoreGroupFields>) -> (r: Result<Vec<EntryGroup>, ScoreListError>)
    ensures
        score_list_result(groups@, r),
{
    let mut out: Vec<EntryGroup> = Vec::new();
    let mut k: usize = 0;
    while k < groups.len()
        invariant
            0 <= k <= groups@.len(),
            out@.len() == k,
            forall|h: int| 0 <= h < k ==> group_parsed(groups@[h], #[trigger] out@[h]),
            forall|h: int| 0 <= h < k ==> group_ok(#[trigger] groups@[h]),
        decreases groups@.len() - k,
    {
        match parse_group(&groups[k]) {
            Ok(g) => {
                out.push(g);
            },
            Err(e) => {
                proof {
                    let i = choose|i: int|
                        0 <= i < groups@[k as int].forms@.len() && (forall|j: int|
                            0 <= j < i ==> form_ok(#[trigger] groups@[k as int].forms@[j])) && form_parsed(
                            #[trigger] groups@[k as int].forms@[i],
                            Err(e),
                        );
                    assert(form_parsed(groups@[k as int].forms@[i], Err(e)));
                }
                return Err(e);
            },
        }
        k = k + 1;
    }
    Ok(out)
}

/// An image address that may be missing, taken from an optional attribute.
pub open spec fn flat_attr(a: Option<Option<Seq<char>>>) -> Option<Seq<char>> {
    match a {
        Some(Some(v)) => Some(v),
        _ => None,
    }
}

/// The `src` of the element after the parent of element `form`; the middle
/// none when there is no parent element or it has no following element.
pub open spec fn outside_generation(html: Seq<char>, form: usize) -> Option<Option<Option<Seq<char>>>> {
    match parent_element(html, form) {
        None => None,
        Some(None) => Some(None),
        Some(Some(p)) => match following_elements(html, p) {
            None => None,
            Some(sibs) => if sibs.len() > 0 {
                match element_attr(html, sibs[0], "src"@) {
                    None => None,
                    Some(a) => Some(Some(a)),
                }
            } else {
                Some(None)
            },
        },
    }
}

/// The fields of the entry form `form` of the page.
pub open spec fn form_fields_at(html: Seq<char>, form: usize, f: ScoreFormFields) -> bool {
    &&& first_attr(html, form, "img.h_20"@, "src"@) == Some(f.difficulty_img.deep_view())
    &&& first_attr(html, form, "img.music_kind_icon"@, "src"@) matches Some(g) && f.generation_inside.deep_view()
        == flat_attr(g)
    &&& outside_generation(html, form) == Some(f.generation_outside.deep_view())
    &&& first_text(html, form, "div.music_lv_block"@) == Some(f.level.deep_view())
    &&& first_text(html, form, "div.music_name_block"@) == Some(f.song_name.deep_view())
    &&& first_text(html, form, "div.music_score_block.w_112,div.music_score_block.w_150"@) == Some(
        f.achievement.deep_view(),
    )
    &&& first_text(html, form, "div.music_score_block.w_190"@) == Some(f.deluxscore.deep_view())
    &&& selected(html, form, "img.h_30"@) matches Some(imgs)
    &&& f.rank_imgs@.len() == if imgs.len() < 3 { imgs.len() } else { 3 }
    &&& forall|i: int|
        0 <= i < f.rank_imgs@.len() ==> element_attr(html, imgs[i], "src"@) == Some(
            #[trigger] f.rank_imgs@[i].deep_view(),
        )
    &&& first_attr(html, form, "input"@, "value"@) == Some(f.idx_input.deep_view())
}

/// Every query of `form_fields_at` answers.
pub open spec fn form_walk_ok(html: Seq<char>, form: usize) -> bool {
    &&& first_attr(html, form, "img.h_20"@, "src"@) is Some
    &&& first_attr(html, form, "img.music_kind_icon"@, "src"@) is Some
    &&& outside_generation(html, form) is Some
    &&& first_text(html, form, "div.music_lv_block"@) is Some
    &&& first_text(html, form, "div.music_name_block"@) is Some
    &&& first_text(html, form, "div.music_score_block.w_112,div.music_score_block.w_150"@) is Some
    &&& first_text(html, form, "div.music_score_block.w_190"@) is Some
    &&& selected(html, form, "img.h_30"@) matches Some(imgs)
    &&& forall|i: int| 0 <= i < imgs.len() && i < 3 ==> (#[trigger] element_attr(html, imgs[i], "src"@)) is Some
    &&& first_attr(html, form, "input"@, "value"@) is Some
}

/// The entry form inside element `e`, if any: the first form that posts to
/// the score detail page.
pub open spec fn form_in(html: Seq<char>, e: usize) -> Option<Option<usize>> {
    first_match(html, e, "form[action='https://maimaidx.jp/maimai-mobile/record/musicDetail/']"@)
}

/// A form was found.
pub open spec fn holds_form(x: Option<Option<usize>>) -> bool {
    x matches Some(Some(_))
}

/// Element `e` holds an entry form with the fields `f`.
pub open spec fn form_fields_in(html: Seq<char>, e: usize, f: ScoreFormFields) -> bool {
    match form_in(html, e) {
        Some(Some(x)) => form_fields_at(html, x, f),
        _ => false,
    }
}

/// Element `e` holds an entry form, and every query of its fields answers.
pub open spec fn form_ok_in(html: Seq<char>, e: usize) -> bool {
    match form_in(html, e) {
        Some(Some(x)) => form_walk_ok(html, x),
        _ => false,
    }
}

/// The query for a form in element `e` answers, and so does every query of
/// the form's fields when there is one.
pub open spec fn form_step_ok(html: Seq<char>, e: usize) -> bool {
    match form_in(html, e) {
        None => false,
        Some(None) => true,
        Some(Some(x)) => form_walk_ok(html, x),
    }
}

/// The siblings `sibs[0..n]` each hold an entry form, and the one after
/// them, if any, holds none.
pub open spec fn form_run(html: Seq<char>, sibs: Seq<usize>, n: int) -> bool {
    &&& 0 <= n <= sibs.len()
    &&& forall|i: int| 0 <= i < n ==> holds_form(#[trigger] form_in(html, sibs[i]))
    &&& n < sibs.len() ==> form_in(html, sibs[n]) == Some(None::<usize>)
}

/// The group under the heading `div`: its text, and the entry forms in the
/// blocks that follow it, up to the first block without one.
pub open spec fn group_fields_at(html: Seq<char>, div: usize, g: ScoreGroupFields) -> bool {
    &&& element_text(html, div) == Some(g.label@)
    &&& following_elements(html, div) matches Some(sibs)
    &&& form_run(html, sibs, g.forms@.len() as int)
    &&& forall|i: int| 0 <= i < g.forms@.len() ==> form_fields_in(html, sibs[i], #[trigger] g.forms@[i])
}

/// Every query of `group_fields_at` answers: along the blocks after the
/// heading, as long as each before holds a form.
pub open spec fn group_walk_ok(html: Seq<char>, div: usize) -> bool {
    &&& element_text(html, div) is Some
    &&& following_elements(html, div) matches Some(sibs)
    &&& forall|i: int|
        0 <= i < sibs.len() && (forall|j: int| 0 <= j < i ==> holds_form(#[trigger] form_in(html, sibs[j])))
            ==> form_step_ok(html, #[trigger] sibs[i])
}

/// The headings of the score list.
pub open spec fn score_headings(html: Seq<char>) -> Option<Seq<usize>> {
    selected(html, 0, "div.screw_block"@)
}

/// The groups of the score list page, in page order.
pub open spec fn score_page_fields(html: Seq<char>, groups: Seq<ScoreGroupFields>) -> bool {
    &&& score_headings(html) matches Some(hs)
    &&& groups.len() == hs.len()
    &&& forall|k: int| 0 <= k < hs.len() ==> group_fields_at(html, hs[k], #[trigger] groups[k])
}

/// The page can be walked.
pub open spec fn score_page_walk_ok(html: Seq<char>) -> bool {
    &&& score_headings(html) matches Some(hs)
    &&& forall|k: int| 0 <= k < hs.len() ==> group_walk_ok(html, #[trigger] hs[k])
}

fn read_form_fields(html: &str, form: usize) -> (r: Option<ScoreFormFields>)
    ensures
        r is Some == form_walk_ok(html@, form),
        r matches Some(f) ==> form_fields_at(html@, form, f),
{
    let difficulty_img = first_attr_of(html, form, "img.h_20", "src")?;
    let generation_inside = match first_attr_of(html, form, "img.music_kind_icon", "src")? {
        Some(Some(v)) => Some(v),
        _ => None,
    };
    let generation_outside = match parent(html, form)? {
        None => None,
        Some(p) => {
            let sibs = following(html, p)?;
            if sibs.len() > 0 {
                Some(attr(html, sibs[0], "src")?)
            } else {
                None
            }
        },
    };
    let level = first_text_of(html, form, "div.music_lv_block")?;
    let song_name = first_text_of(html, form, "div.music_name_block")?;
    let achievement = first_text_of(html, form, "div.music_score_block.w_112,div.music_score_block.w_150")?;
    let deluxscore = first_text_of(html, form, "div.music_score_block.w_190")?;
    let imgs = select(html, form, "img.h_30")?;
    let mut rank_imgs: Vec<Option<String>> = Vec::new();
    let mut i: usize = 0;
    while i < imgs.len() && i < 3
        invariant
            i <= imgs@.len(),
            i <= 3,
            rank_imgs@.len() == i,
            selected(html@, form, "img.h_30"@) == Some(imgs@),
            forall|j: int| 0 <= j < i ==> element_attr(html@, imgs@[j], "src"@) == Some(#[trigger] rank_imgs@[j].deep_view()),
        decreases imgs@.len() - i,
    {
        match attr(html, imgs[i], "src") {
            Some(a) => {
                rank_imgs.push(a);
            },
            None => {
                proof {
                    let ims = selected(html@, form, "img.h_30"@)->0;
                    assert(element_attr(html@, ims[i as int], "src"@) is None);
                }
                return None;
            },
        }
        i = i + 1;
    }
    let idx_input = first_attr_of(html, form, "input", "value")?;
    let f = ScoreFormFields {
        difficulty_img,
        generation_inside,
        generation_outside,
        level,
        song_name,
        achievement,
        deluxscore,
        rank_imgs,
        idx_input,
    };
    proof {
        assert forall|j: int| 0 <= j < imgs@.len() && j < 3 implies (#[trigger] element_attr(html@, imgs@[j], "src"@)) is Some by {
            assert(element_attr(html@, imgs@[j], "src"@) == Some(f.rank_imgs@[j].deep_view()));
        }
    }
    Some(f)
}

fn read_group_fields(html: &str, div: usize) -> (r: Option<ScoreGroupFields>)
    ensures
        r is Some == group_walk_ok(html@, div),
        r matches Some(g) ==> group_fields_at(html@, div, g),
{
    let label = text(html, div)?;
    let sibs = following(html, div)?;
    let mut forms: Vec<ScoreFormFields> = Vec::new();
    let mut i: usize = 0;
    while i < sibs.len()
        invariant_except_break
            i <= sibs@.len(),
            forms@.len() == i,
            element_text(html@, div) == Some(label@),
            following_elements(html@, div) == Some(sibs@),
            forall|j: int| 0 <= j < i ==> holds_form(#[trigger] form_in(html@, sibs@[j])),
            forall|j: int| 0 <= j < i ==> form_fields_in(html@, sibs@[j], #[trigger] forms@[j]),
            forall|j: int| 0 <= j < i ==> form_ok_in(html@, #[trigger] sibs@[j]),
        ensures
            i <= sibs@.len(),
            forms@.len() == i,
            element_text(html@, div) == Some(label@),
            following_elements(html@, div) == Some(sibs@),
            form_run(html@, sibs@, i as int),
            forall|j: int| 0 <= j < i ==> form_fields_in(html@, sibs@[j], #[trigger] forms@[j]),
            forall|j: int| 0 <= j < i ==> form_ok_in(html@, #[trigger] sibs@[j]),
        decreases sibs@.len() - i,
    {
        let found = match first(html, sibs[i], "form[action='https://maimaidx.jp/maimai-mobile/record/musicDetail/']") {
            Some(x) => x,
            None => {
                proof {
                    let ss = following_elements(html@, div)->0;
                    assert(!group_walk_ok(html@, div)) by {
                        assert(form_in(html@, ss[i as int]) is None);
                    }
                }
                return None;
            },
        };
        match found {
            None => {
                break;
            },
            Some(form) => match read_form_fields(html, form) {
                Some(f) => {
                    forms.push(f);
                },
                None => {
                    proof {
                        let ss = following_elements(html@, div)->0;
                        assert(!group_walk_ok(html@, div)) by {
                            assert(form_in(html@, ss[i as int]) == Some(Some(form)));
                        }
                    }
                    return None;
                },
            },
        }
        i = i + 1;
    }
    let g = ScoreGroupFields { label, forms };
    proof {
        let ss = sibs@;
        let n = i as int;
        assert forall|k: int|
            0 <= k < ss.len() && (forall|j: int| 0 <= j < k ==> holds_form(#[trigger] form_in(html@, ss[j])))
                implies form_step_ok(html@, #[trigger] ss[k]) by {
            if k > n {
                assert(holds_form(form_in(html@, ss[n])));
            }
        }
        assert(group_fields_at(html@, div, g));
    }
    Some(g)
}

/// Reads the score list page: each heading with the entry forms in the
/// blocks after it, up to the first block without one, read as
/// `parse_score_list` reads them.
pub fn parse_score_list_page(html: &str) -> (r: Result<Vec<EntryGroup>, ScoreListError>)
    ensures
        if score_page_walk_ok(html@) {
            exists|groups: Seq<ScoreGroupFields>| #[trigger] score_page_fields(html@, groups) && score_list_result(groups, r)
        } else {
            r == Err::<Vec<EntryGroup>, ScoreListError>(ScoreListError::Walk)
        },
{
    let hs = match select(html, 0, "div.screw_block") {
        Some(h) => h,
        None => {
            return Err(ScoreListError::Walk);
        },
    };
    let mut groups: Vec<ScoreGroupFields> = Vec::new();
    let mut k: usize = 0;
    while k < hs.len()
        invariant
            k <= hs@.len(),
            score_headings(html@) == Some(hs@),
            groups@.len() == k,
            forall|j: int| 0 <= j < k ==> group_walk_ok(html@, #[trigger] hs@[j]),
            forall|j: int| 0 <= j < k ==> group_fields_at(html@, hs@[j], #[trigger] groups@[j]),
        decreases hs@.len() - k,
    {
        match read_group_fields(html, hs[k]) {
            Some(g) => {
                groups.push(g);
            },
            None => {
                proof {
                    let h = score_headings(html@)->0;
                    assert(!group_walk_ok(html@, h[k as int]));
                }
                return Err(ScoreListError::Walk);
            },
        }
        k = k + 1;
    }
    let r = parse_score_list(&groups);
    proof {
        assert(score_page_fields(html@, groups@));
    }
    r
}

} // verus!
