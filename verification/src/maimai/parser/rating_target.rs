use vstd::prelude::*;

use crate::dom::{
    element_matches, first, first_attr, first_attr_of, first_match, first_text, first_text_of, following,
    following_elements, matches_selector,
};
use crate::maimai::parser::img_src::{opt_view, ImgSrcError};
use crate::maimai::parser::play_record::{
    achievement_text_value, parse_achievement_txt, parse_playlog_diff, parse_score_generation_img,
    playlog_diff_of_src, score_generation_of_src, FieldError,
};
use crate::maimai::parser::song_score::ScoreIdx;
use crate::maimai::rating::{parse_level_spec, ScoreLevel, ScoreLevelParseError};
use crate::maimai::schema::latest::{
    AchievementValue, RatingValue, ScoreMetadata, SongName, MAX_ACHIEVEMENT,
};
use crate::text::{parse_unsigned, parse_unsigned_max};

verus! {

/// A chart of the rating target page.
#[derive(Clone, Debug)]
pub struct RatingTargetEntry {
    pub score_metadata: ScoreMetadata,
    pub song_name: SongName,
    pub level: ScoreLevel,
    pub achievement: AchievementValue,
    pub idx: ScoreIdx,
}

/// The rating target page: the rating, the charts that count (new and old
/// songs) and the next candidates.
#[derive(Clone, Debug)]
pub struct RatingTargetList {
    pub rating: RatingValue,
    pub target_new: Vec<RatingTargetEntry>,
    pub target_old: Vec<RatingTargetEntry>,
    pub candidates_new: Vec<RatingTargetEntry>,
    pub candidates_old: Vec<RatingTargetEntry>,
}

/// What an entry of the rating target page holds, as found on the page. An
/// image or an input is `None` when the entry has none, `Some(None)` when it
/// has no such attribute; a text is `None` when its block is missing.
#[derive(Clone, Debug)]
pub struct EntryFields {
    /// The `src` of the difficulty image (`img.h_20`).
    pub difficulty_img: Option<Option<String>>,
    /// The `src` of the generation image (`img.music_kind_icon`).
    pub generation_img: Option<Option<String>>,
    /// The text of the song name block.
    pub song_name: Option<String>,
    /// The text of the level block.
    pub level: Option<String>,
    /// The text of the achievement block.
    pub achievement: Option<String>,
    /// The `value` of the first input.
    pub idx_input: Option<Option<String>>,
}

/// One of the blocks that follow the title block of the page.
#[derive(Clone, Debug)]
pub enum TargetDiv {
    /// A heading (`div.screw_block`).
    Heading,
    /// An entry (`div.pointer`).
    Entry(EntryFields),
    /// Any other block.
    Other,
}

/// A part of the page that was not found.
#[derive(Clone, Copy, PartialEq, Eq, Structural, Debug)]
pub enum TargetPart {
    TitleBlock,
    RatingBlock,
    DifficultyImg,
    GenerationImg,
    SongName,
    Level,
    Achievement,
    IdxInput,
}

/// Why the rating target page could not be read.
#[derive(Clone, PartialEq, Eq, Debug)]
pub enum TargetPageError {
    /// A part of the page is missing.
    Missing(TargetPart),
    /// The rating is no number from 0 to 65535.
    Rating,
    /// The page ends where a heading should come.
    NoSection,
    /// Another block stands where a heading should come.
    NotHeading,
    DifficultyImg(ImgSrcError),
    GenerationImg(ImgSrcError),
    Level(ScoreLevelParseError),
    Achievement(FieldError),
    /// The idx input has no value.
    NoIdxValue,
    /// The page could not be walked: a selector was refused or an element
    /// was not found again.
    Walk,
}

/// The entry that the fields of an entry give, or why they give none: the
/// fields are read in order (difficulty, generation, name, level,
/// achievement, idx) and the first that fails decides.
pub open spec fn entry_parsed(f: EntryFields, r: Result<RatingTargetEntry, TargetPageError>) -> bool {
    match f.difficulty_img {
        None => r == Err::<RatingTargetEntry, TargetPageError>(TargetPageError::Missing(TargetPart::DifficultyImg)),
        Some(None) => r == Err::<RatingTargetEntry, TargetPageError>(
            TargetPageError::DifficultyImg(ImgSrcError::NoSrc),
        ),
        Some(Some(ds)) => match playlog_diff_of_src(ds@) {
            None => r matches Err(TargetPageError::DifficultyImg(ImgSrcError::UnknownSrc(u))) && u@ == ds@,
            Some(d) => match f.generation_img {
                None => r == Err::<RatingTargetEntry, TargetPageError>(
                    TargetPageError::Missing(TargetPart::GenerationImg),
                ),
                Some(None) => r == Err::<RatingTargetEntry, TargetPageError>(
                    TargetPageError::GenerationImg(ImgSrcError::NoSrc),
                ),
                Some(Some(gs)) => match score_generation_of_src(gs@) {
                    None => r matches Err(TargetPageError::GenerationImg(ImgSrcError::UnknownSrc(u))) && u@ == gs@,
                    Some(g) => match f.song_name {
                        None => r == Err::<RatingTargetEntry, TargetPageError>(
                            TargetPageError::Missing(TargetPart::SongName),
                        ),
                        Some(name) => match f.level {
                            None => r == Err::<RatingTargetEntry, TargetPageError>(
                                TargetPageError::Missing(TargetPart::Level),
                            ),
                            Some(lt) => match parse_level_spec(lt@) {
                                Err(e) => r == Err::<RatingTargetEntry, TargetPageError>(TargetPageError::Level(e)),
                                Ok(level) => match f.achievement {
                                    None => r == Err::<RatingTargetEntry, TargetPageError>(
                                        TargetPageError::Missing(TargetPart::Achievement),
                                    ),
                                    Some(at) => match achievement_text_value(at@) {
                                        None => r == Err::<RatingTargetEntry, TargetPageError>(
                                            TargetPageError::Achievement(FieldError::Format),
                                        ),
                                        Some(v) => if v > MAX_ACHIEVEMENT {
                                            r == Err::<RatingTargetEntry, TargetPageError>(
                                                TargetPageError::Achievement(FieldError::OutOfBounds(v as u32)),
                                            )
                                        } else {
                                            match f.idx_input {
                                                None => r == Err::<RatingTargetEntry, TargetPageError>(
                                                    TargetPageError::Missing(TargetPart::IdxInput),
                                                ),
                                                Some(None) => r == Err::<RatingTargetEntry, TargetPageError>(
                                                    TargetPageError::NoIdxValue,
                                                ),
                                                Some(Some(iv)) => r matches Ok(e) && e.score_metadata == (ScoreMetadata {
                                                    generation: g,
                                                    difficulty: d,
                                                }) && e.song_name.0@ == name@ && e.level == level
                                                    && e.achievement.spec_get() == v && e.idx.0@ == iv@,
                                            }
                                        },
                                    },
                                },
                            },
                        },
                    },
                },
            },
        },
    }
}

/// The fields give an entry.
pub open spec fn entry_ok(f: EntryFields) -> bool {
    &&& f.difficulty_img matches Some(Some(ds)) && playlog_diff_of_src(ds@) is Some
    &&& f.generation_img matches Some(Some(gs)) && score_generation_of_src(gs@) is Some
    &&& f.song_name is Some
    &&& f.level matches Some(lt) && parse_level_spec(lt@) is Ok
    &&& f.achievement matches Some(at) && achievement_text_value(at@) matches Some(v) && v <= MAX_ACHIEVEMENT
    &&& f.idx_input matches Some(Some(_))
}

/// Reads one entry of the page.
pub fn parse_entry(f: &EntryFields) -> (r: Result<RatingTargetEntry, TargetPageError>)
    ensures
        entry_parsed(*f, r),
        r is Ok <==> entry_ok(*f),
{
    let difficulty = match &f.difficulty_img {
        None => {
            return Err(TargetPageError::Missing(TargetPart::DifficultyImg));
        },
        Some(src) => match parse_playlog_diff(match src {
            Some(s) => Some(s.as_str()),
            None => None,
        }) {
            Ok(d) => d,
            Err(e) => {
                return Err(TargetPageError::DifficultyImg(e));
            },
        },
    };
    let generation = match &f.generation_img {
        None => {
            return Err(TargetPageError::Missing(TargetPart::GenerationImg));
        },
        Some(src) => match parse_score_generation_img(match src {
            Some(s) => Some(s.as_str()),
            None => None,
        }) {
            Ok(g) => g,
            Err(e) => {
                return Err(TargetPageError::GenerationImg(e));
            },
        },
    };
    let song_name = match &f.song_name {
        None => {
            return Err(TargetPageError::Missing(TargetPart::SongName));
        },
        Some(n) => SongName(n.clone()),
    };
    let level = match &f.level {
        None => {
            return Err(TargetPageError::Missing(TargetPart::Level));
        },
        Some(t) => match ScoreLevel::from_str(t.as_str()) {
            Ok(l) => l,
            Err(e) => {
                return Err(TargetPageError::Level(e));
            },
        },
    };
    let achievement = match &f.achievement {
        None => {
            return Err(TargetPageError::Missing(TargetPart::Achievement));
        },
        Some(t) => match parse_achievement_txt(t.as_str()) {
            Ok(a) => a,
            Err(e) => {
                return Err(TargetPageError::Achievement(e));
            },
        },
    };
    let idx = match &f.idx_input {
        None => {
            return Err(TargetPageError::Missing(TargetPart::IdxInput));
        },
        Some(None) => {
            return Err(TargetPageError::NoIdxValue);
        },
        Some(Some(v)) => ScoreIdx(v.clone()),
    };
    Ok(RatingTargetEntry {
        score_metadata: ScoreMetadata { generation, difficulty },
        song_name,
        level,
        achievement,
        idx,
    })
}

/// How many entry blocks follow one another from position `start`.
pub open spec fn entry_run(divs: Seq<TargetDiv>, start: int) -> nat
    decreases divs.len() - start,
{
    if 0 <= start < divs.len() && divs[start] is Entry {
        1 + entry_run(divs, start + 1)
    } else {
        0
    }
}

/// The fields of the `i`-th entry after the heading at `p`.
pub open spec fn fields_after(divs: Seq<TargetDiv>, p: int, i: int) -> EntryFields {
    divs[p + 1 + i]->Entry_0
}

/// The section whose heading should stand at `p` reads: the heading is
/// there, and every entry block after it gives an entry.
pub open spec fn section_ok_at(divs: Seq<TargetDiv>, p: int) -> bool {
    &&& 0 <= p < divs.len()
    &&& divs[p] is Heading
    &&& forall|i: int| 0 <= i < entry_run(divs, p + 1) ==> entry_ok(#[trigger] fields_after(divs, p, i))
}

/// Why the section whose heading should stand at `p` does not read: no
/// block is left, another block stands there, or the first entry that gives
/// none fails with `e`.
pub open spec fn section_error_at(divs: Seq<TargetDiv>, p: int, e: TargetPageError) -> bool {
    if p >= divs.len() {
        e == TargetPageError::NoSection
    } else if !(divs[p] is Heading) {
        e == TargetPageError::NotHeading
    } else {
        exists|i: int|
            0 <= i < entry_run(divs, p + 1) && (forall|j: int| 0 <= j < i ==> entry_ok(#[trigger] fields_after(divs, p, j)))
                && entry_parsed(#[trigger] fields_after(divs, p, i), Err(e))
    }
}

/// `es` are the entries of the section whose heading stands at `p`.
pub open spec fn section_parsed_at(divs: Seq<TargetDiv>, p: int, es: Seq<RatingTargetEntry>) -> bool {
    &&& es.len() == entry_run(divs, p + 1)
    &&& forall|i: int| 0 <= i < es.len() ==> entry_parsed(fields_after(divs, p, i), Ok(#[trigger] es[i]))
}

/// Where the `k`-th section's heading should stand: the first at the start,
/// each next one after the previous heading and its entries.
pub open spec fn section_start(divs: Seq<TargetDiv>, k: nat) -> int
    decreases k,
{
    if k == 0 {
        0
    } else {
        let p = section_start(divs, (k - 1) as nat);
        p + 1 + entry_run(divs, p + 1)
    }
}

proof fn lemma_entry_run_split(divs: Seq<TargetDiv>, s: int, t: int)
    requires
        0 <= s <= t <= divs.len(),
        forall|i: int| s <= i < t ==> divs[i] is Entry,
    ensures
        entry_run(divs, s) == (t - s) + entry_run(divs, t),
    decreases t - s,
{
    if s < t {
        lemma_entry_run_split(divs, s + 1, t);
    }
}

proof fn lemma_entry_run_bound(divs: Seq<TargetDiv>, s: int)
    requires
        0 <= s <= divs.len(),
    ensures
        entry_run(divs, s) <= divs.len() - s,
    decreases divs.len() - s,
{
    if s < divs.len() {
        lemma_entry_run_bound(divs, s + 1);
    }
}

/// Reads the section whose heading should stand at `p`, and gives the
/// position after it.
fn parse_section(divs: &Vec<TargetDiv>, p: usize) -> (r: Result<(Vec<RatingTargetEntry>, usize), TargetPageError>)
    requires
        p <= divs@.len(),
    ensures
        section_ok_at(divs@, p as int) ==> (r matches Ok((es, q)) && section_parsed_at(divs@, p as int, es@) && q == p + 1
            + entry_run(divs@, p + 1) && q <= divs@.len()),
        !section_ok_at(divs@, p as int) ==> (r matches Err(e) && section_error_at(divs@, p as int, e)),
{
    if p >= divs.len() {
        return Err(TargetPageError::NoSection);
    }
    match &divs[p] {
        TargetDiv::Heading => {},
        _ => {
            return Err(TargetPageError::NotHeading);
        },
    }
    let mut out: Vec<RatingTargetEntry> = Vec::new();
    let mut i: usize = p + 1;
    while i < divs.len()
        invariant_except_break
            p < divs@.len(),
            divs@[p as int] is Heading,
            p + 1 <= i <= divs@.len(),
            out@.len() == i - p - 1,
            forall|j: int| p + 1 <= j < i ==> divs@[j] is Entry,
            forall|j: int| 0 <= j < out@.len() ==> entry_ok(#[trigger] fields_after(divs@, p as int, j)),
            forall|j: int| 0 <= j < out@.len() ==> entry_parsed(fields_after(divs@, p as int, j), Ok(#[trigger] out@[j])),
        ensures
            p < divs@.len(),
            divs@[p as int] is Heading,
            p + 1 <= i <= divs@.len(),
            out@.len() == i - p - 1,
            forall|j: int| p + 1 <= j < i ==> divs@[j] is Entry,
            i == divs@.len() || !(divs@[i as int] is Entry),
            forall|j: int| 0 <= j < out@.len() ==> entry_ok(#[trigger] fields_after(divs@, p as int, j)),
            forall|j: int| 0 <= j < out@.len() ==> entry_parsed(fields_after(divs@, p as int, j), Ok(#[trigger] out@[j])),
        decreases divs@.len() - i,
    {
        match &divs[i] {
            TargetDiv::Entry(f) => {
                match parse_entry(f) {
                    Ok(e) => {
                        out.push(e);
                    },
                    Err(e) => {
                        proof {
                            lemma_entry_run_split(divs@, p + 1, i as int);
                            assert(fields_after(divs@, p as int, i - p - 1) == *f);
                            assert(section_error_at(divs@, p as int, e));
                        }
                        return Err(e);
                    },
                }
            },
            _ => {
                break;
            },
        }
        i = i + 1;
    }
    proof {
        lemma_entry_run_split(divs@, p + 1, i as int);
    }
    Ok((out, i))
}

/// All four sections read.
pub open spec fn page_ok(divs: Seq<TargetDiv>) -> bool {
    forall|k: nat| k < 4 ==> section_ok_at(divs, #[trigger] section_start(divs, k))
}

/// What the rating target page gives for its blocks after the title block
/// (`None` when there is no title block) and the text of its rating block.
pub open spec fn target_page_result(
    divs: Option<Seq<TargetDiv>>,
    rating_text: Option<Seq<char>>,
    r: Result<RatingTargetList, TargetPageError>,
) -> bool {
    match divs {
        None => r == Err::<RatingTargetList, TargetPageError>(TargetPageError::Missing(TargetPart::TitleBlock)),
        Some(ds) => match rating_text {
            None => r == Err::<RatingTargetList, TargetPageError>(TargetPageError::Missing(TargetPart::RatingBlock)),
            Some(rt) => match parse_unsigned(rt, 65535) {
                None => r == Err::<RatingTargetList, TargetPageError>(TargetPageError::Rating),
                Some(v) => if page_ok(ds) {
                    r matches Ok(list) && list.rating.spec_get() == v && section_parsed_at(
                        ds,
                        section_start(ds, 0),
                        list.target_new@,
                    ) && section_parsed_at(ds, section_start(ds, 1), list.target_old@) && section_parsed_at(
                        ds,
                        section_start(ds, 2),
                        list.candidates_new@,
                    ) && section_parsed_at(ds, section_start(ds, 3), list.candidates_old@)
                } else {
                    r matches Err(e) && exists|k: nat|
                        k < 4 && (forall|m: nat| m < k ==> section_ok_at(ds, #[trigger] section_start(ds, m)))
                            && section_error_at(ds, section_start(ds, k), e)
                },
            },
        },
    }
}

/// Reads the rating target page from its blocks after the title block
/// (`None` when there is no title block) and the text of its rating block
/// (`None` when there is none). The page holds four sections, each a heading
/// and the entries after it: the new and old targets, then the new and old
/// candidates.
pub fn parse_page(divs: Option<&Vec<TargetDiv>>, rating_text: Option<&str>) -> (r: Result<
    RatingTargetList,
    TargetPageError,
>)
    ensures
        target_page_result(
            match divs {
                Some(ds) => Some(ds@),
                None => None,
            },
            opt_view(rating_text),
            r,
        ),
{
    let divs = match divs {
        None => {
            return Err(TargetPageError::Missing(TargetPart::TitleBlock));
        },
        Some(d) => d,
    };
    let rating = match rating_text {
        None => {
            return Err(TargetPageError::Missing(TargetPart::RatingBlock));
        },
        Some(t) => match parse_unsigned_max(t, 65535) {
            None => {
                return Err(TargetPageError::Rating);
            },
            Some(v) => RatingValue::from_u16(v as u16),
        },
    };
    let ghost ds = divs@;
    proof {
        assert(section_start(ds, 0) == 0);
        assert(section_start(ds, 1) == section_start(ds, 0) + 1 + entry_run(ds, section_start(ds, 0) + 1));
        assert(section_start(ds, 2) == section_start(ds, 1) + 1 + entry_run(ds, section_start(ds, 1) + 1));
        assert(section_start(ds, 3) == section_start(ds, 2) + 1 + entry_run(ds, section_start(ds, 2) + 1));
    }
    let (target_new, p1) = match parse_section(divs, 0) {
        Ok(x) => x,
        Err(e) => {
            proof {
                assert(section_error_at(ds, section_start(ds, 0), e));
                assert(!section_ok_at(ds, section_start(ds, 0)));
            }
            return Err(e);
        },
    };
    let (target_old, p2) = match parse_section(divs, p1) {
        Ok(x) => x,
        Err(e) => {
            proof {
                assert(!section_ok_at(ds, section_start(ds, 1)));
                assert forall|m: nat| m < 1 implies section_ok_at(ds, #[trigger] section_start(ds, m)) by {
                    assert(m == 0);
                }
                assert(section_error_at(ds, section_start(ds, 1), e));
            }
            return Err(e);
        },
    };
    let (candidates_new, p3) = match parse_section(divs, p2) {
        Ok(x) => x,
        Err(e) => {
            proof {
                assert(!section_ok_at(ds, section_start(ds, 2)));
                assert forall|m: nat| m < 2 implies section_ok_at(ds, #[trigger] section_start(ds, m)) by {
                    assert(m == 0 || m == 1);
                }
                assert(section_error_at(ds, section_start(ds, 2), e));
            }
            return Err(e);
        },
    };
    let (candidates_old, _) = match parse_section(divs, p3) {
        Ok(x) => x,
        Err(e) => {
            proof {
                assert(!section_ok_at(ds, section_start(ds, 3)));
                assert forall|m: nat| m < 3 implies section_ok_at(ds, #[trigger] section_start(ds, m)) by {
                    assert(m == 0 || m == 1 || m == 2);
                }
                assert(section_error_at(ds, section_start(ds, 3), e));
            }
            return Err(e);
        },
    };
    proof {
        assert forall|k: nat| k < 4 implies section_ok_at(ds, #[trigger] section_start(ds, k)) by {
            assert(k == 0 || k == 1 || k == 2 || k == 3);
        }
    }
    Ok(RatingTargetList { rating, target_new, target_old, candidates_new, candidates_old })
}

/// The fields of the entry block `div` of the page: the first difficulty
/// and generation images, name, level and achievement blocks and input in it.
pub open spec fn entry_fields_at(html: Seq<char>, div: usize, f: EntryFields) -> bool {
    &&& first_attr(html, div, "img.h_20"@, "src"@) == Some(f.difficulty_img.deep_view())
    &&& first_attr(html, div, "img.music_kind_icon"@, "src"@) == Some(f.generation_img.deep_view())
    &&& first_text(html, div, "div.music_name_block"@) == Some(f.song_name.deep_view())
    &&& first_text(html, div, "div.music_lv_block"@) == Some(f.level.deep_view())
    &&& first_text(html, div, "div.music_score_block.w_112,div.music_score_block.w_150"@) == Some(
        f.achievement.deep_view(),
    )
    &&& first_attr(html, div, "input"@, "value"@) == Some(f.idx_input.deep_view())
}

/// Every query of `entry_fields_at` answers.
pub open spec fn entry_walk_ok(html: Seq<char>, div: usize) -> bool {
    &&& first_attr(html, div, "img.h_20"@, "src"@) is Some
    &&& first_attr(html, div, "img.music_kind_icon"@, "src"@) is Some
    &&& first_text(html, div, "div.music_name_block"@) is Some
    &&& first_text(html, div, "div.music_lv_block"@) is Some
    &&& first_text(html, div, "div.music_score_block.w_112,div.music_score_block.w_150"@) is Some
    &&& first_attr(html, div, "input"@, "value"@) is Some
}

/// What element `e` of the page is as a block of the rating target page.
pub open spec fn target_div_at(html: Seq<char>, e: usize, d: TargetDiv) -> bool {
    match element_matches(html, e, "div.screw_block"@) {
        Some(true) => d is Heading,
        Some(false) => match element_matches(html, e, "div.pointer"@) {
            Some(true) => d matches TargetDiv::Entry(f) && entry_fields_at(html, e, f),
            Some(false) => d is Other,
            None => false,
        },
        None => false,
    }
}

/// Every query of `target_div_at` answers.
pub open spec fn target_div_walk_ok(html: Seq<char>, e: usize) -> bool {
    match element_matches(html, e, "div.screw_block"@) {
        Some(true) => true,
        Some(false) => match element_matches(html, e, "div.pointer"@) {
            Some(true) => entry_walk_ok(html, e),
            Some(false) => true,
            None => false,
        },
        None => false,
    }
}

/// The title block of the page: the first `div.see_through_block`.
pub open spec fn title_block(html: Seq<char>) -> Option<Option<usize>> {
    first_match(html, 0, "div.see_through_block"@)
}

/// The blocks after the title block (none without a title block) and the
/// text of the rating block, as the page holds them.
pub open spec fn target_page_fields(html: Seq<char>, divs: Option<Seq<TargetDiv>>, rating: Option<Seq<char>>) -> bool {
    &&& first_text(html, 0, "div.rating_block"@) == Some(rating)
    &&& match title_block(html) {
        Some(None) => divs is None,
        Some(Some(t)) => following_elements(html, t) matches Some(sibs) && divs matches Some(ds) && ds.len()
            == sibs.len() && forall|i: int| 0 <= i < sibs.len() ==> target_div_at(html, sibs[i], #[trigger] ds[i]),
        None => false,
    }
}

/// The page can be walked.
pub open spec fn target_page_walk_ok(html: Seq<char>) -> bool {
    &&& first_text(html, 0, "div.rating_block"@) is Some
    &&& match title_block(html) {
        Some(None) => true,
        Some(Some(t)) => following_elements(html, t) matches Some(sibs) && forall|i: int|
            0 <= i < sibs.len() ==> target_div_walk_ok(html, #[trigger] sibs[i]),
        None => false,
    }
}

fn read_entry_fields(html: &str, div: usize) -> (r: Option<EntryFields>)
    ensures
        r is Some == entry_walk_ok(html@, div),
        r matches Some(f) ==> entry_fields_at(html@, div, f),
{
    let difficulty_img = first_attr_of(html, div, "img.h_20", "src")?;
    let generation_img = first_attr_of(html, div, "img.music_kind_icon", "src")?;
    let song_name = first_text_of(html, div, "div.music_name_block")?;
    let level = first_text_of(html, div, "div.music_lv_block")?;
    let achievement = first_text_of(html, div, "div.music_score_block.w_112,div.music_score_block.w_150")?;
    let idx_input = first_attr_of(html, div, "input", "value")?;
    Some(EntryFields { difficulty_img, generation_img, song_name, level, achievement, idx_input })
}

fn read_target_div(html: &str, e: usize) -> (r: Option<TargetDiv>)
    ensures
        r is Some == target_div_walk_ok(html@, e),
        r matches Some(d) ==> target_div_at(html@, e, d),
{
    if matches_selector(html, e, "div.screw_block")? {
        Some(TargetDiv::Heading)
    } else if matches_selector(html, e, "div.pointer")? {
        Some(TargetDiv::Entry(read_entry_fields(html, e)?))
    } else {
        Some(TargetDiv::Other)
    }
}

/// Reads the rating target page: the blocks after its title block and the
/// text of its rating block, read as `parse_page` reads them.
pub fn parse_rating_target_page(html: &str) -> (r: Result<RatingTargetList, TargetPageError>)
    ensures
        if target_page_walk_ok(html@) {
            exists|divs: Option<Seq<TargetDiv>>, rating: Option<Seq<char>>|
                #[trigger] target_page_fields(html@, divs, rating) && target_page_result(divs, rating, r)
        } else {
            r == Err::<RatingTargetList, TargetPageError>(TargetPageError::Walk)
        },
{
    let rating = match first_text_of(html, 0, "div.rating_block") {
        Some(t) => t,
        None => {
            return Err(TargetPageError::Walk);
        },
    };
    let title = match first(html, 0, "div.see_through_block") {
        Some(t) => t,
        None => {
            return Err(TargetPageError::Walk);
        },
    };
    let divs: Option<Vec<TargetDiv>> = match title {
        None => None,
        Some(t) => {
            let sibs = match following(html, t) {
                Some(s) => s,
                None => {
                    return Err(TargetPageError::Walk);
                },
            };
            let mut ds: Vec<TargetDiv> = Vec::new();
            let mut i: usize = 0;
            while i < sibs.len()
                invariant
                    i <= sibs@.len(),
                    following_elements(html@, t) == Some(sibs@),
                    title_block(html@) == Some(Some(t)),
                    ds@.len() == i,
                    forall|j: int| 0 <= j < i ==> target_div_walk_ok(html@, #[trigger] sibs@[j]),
                    forall|j: int| 0 <= j < i ==> target_div_at(html@, sibs@[j], #[trigger] ds@[j]),
                decreases sibs@.len() - i,
            {
                match read_target_div(html, sibs[i]) {
                    Some(d) => {
                        ds.push(d);
                    },
                    None => {
                        proof {
                            let ss = following_elements(html@, t)->0;
                            assert(!target_div_walk_ok(html@, ss[i as int]));
                        }
                        return Err(TargetPageError::Walk);
                    },
                }
                i = i + 1;
            }
            Some(ds)
        },
    };
    let divs_ref: Option<&Vec<TargetDiv>> = match &divs {
        Some(d) => Some(d),
        None => None,
    };
    let rating_ref: Option<&str> = match &rating {
        Some(t) => Some(t.as_str()),
        None => None,
    };
    let r = parse_page(divs_ref, rating_ref);
    proof {
        let dv = match divs {
            Some(d) => Some(d@),
            None => None,
        };
        assert(target_page_fields(html@, dv, rating.deep_view()));
    }
    r
}

} // verus!
