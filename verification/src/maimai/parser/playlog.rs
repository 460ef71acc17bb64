use vstd::prelude::*;

use crate::maimai::parser::img_src::img_src;
use crate::maimai::parser::play_record::{parse_value_with_max, ratio_of_text, FieldError};
use crate::maimai::schema::latest::{
    parse_url, url_text, AchievementResult, BattleKind, BattleOpponent, BattleResult,
    BattleWinOrLose, ComboResult, DeluxscoreResult, FullComboKind, FullSyncKind, Idx, JudgeCount,
    JudgeCountWithCP, JudgeCountWithoutCP, JudgeResult, LifeResult, MatchingRank, MatchingResult,
    OtherPlayer, OtherPlayersList, PlaceName, PlayRecord, PlayTime, PlayedAt, RatingResult,
    ScoreDifficulty, ScoreGeneration, ScoreMetadata, SongIcon, SongMetadata, TourMember, TourMemberIcon,
    TourMemberList, TrackIndex, UserName, UtageMetadata, ValueWithMax,
};
use crate::text::{parse_unsigned, parse_unsigned_max, str_eq};

verus! {

/// A part of a play record page.
#[derive(Clone, Copy, PartialEq, Eq, Structural, Debug)]
pub enum PlaylogPart {
    JudgeCell,
    Fast,
    Late,
    MaxCombo,
    MaxSync,
    Life,
    MatchingClass,
    MatchingName,
    CharaImg,
    CharaStar,
    CharaLevel,
    ClearedImg,
    CoverArt,
}

/// Why a part of a play record page could not be read.
#[derive(Clone, Copy, PartialEq, Eq, Structural, Debug)]
pub enum PlaylogError {
    /// The part is missing.
    Missing(PlaylogPart),
    /// The part's text is not what it should be.
    Format(PlaylogPart),
    /// A count and its maximum that do not read.
    Field(PlaylogPart, FieldError),
    /// A row of the judgement table of neither shape.
    UnexpectedRow,
    /// The icons before the life block are of neither kind.
    UnexpectedLifeIcons,
    /// Not one to three other players.
    OtherPlayerCount(usize),
    /// Not one to five tour members.
    TourMemberCount(usize),
    /// No generation icon, on a chart other than an utage one.
    NoGeneration,
    /// The place of the play was expected but is not shown.
    NoPlace,
    /// The break row has no critical perfect count.
    BreakWithoutCriticalPerfect,
    /// A hyphen stands for the maximum combo.
    MaxComboHyphen,
    /// The battle kind, its outcome and the opponent do not agree.
    InconsistentBattle,
    /// The full sync, the maximum sync, the other players and the rank do
    /// not agree.
    InconsistentMatching,
}

/// A cell of the judgement table: empty (or a full-width space) for a kind
/// of judgement the notes lack, else a count; `None` when neither.
pub open spec fn judge_cell(s: Seq<char>) -> Option<Option<u32>> {
    if s.len() == 0 || s == seq!['　'] {
        Some(None)
    } else {
        match parse_unsigned(s, u32::MAX as nat) {
            Some(v) => Some(Some(v as u32)),
            None => None,
        }
    }
}

/// The counts of a row of the judgement table: all five cells empty for a
/// kind of note that the chart lacks; perfect, great, good and miss given,
/// with or without a critical perfect count; any other row is refused.
pub open spec fn judge_row(v: Seq<Option<u32>>) -> Option<JudgeCount> {
    if v.len() != 5 {
        None
    } else if v[0] is None && v[1] is None && v[2] is None && v[3] is None && v[4] is None {
        Some(JudgeCount::Nothing)
    } else if v[1] is Some && v[2] is Some && v[3] is Some && v[4] is Some {
        let others = JudgeCountWithoutCP {
            perfect: v[1]->0,
            great: v[2]->0,
            good: v[3]->0,
            miss: v[4]->0,
        };
        match v[0] {
            Some(a) => Some(JudgeCount::JudgeCountWithCP(JudgeCountWithCP { critical_perfect: a, others })),
            None => Some(JudgeCount::JudgeCountWithoutCP(others)),
        }
    } else {
        None
    }
}

fn read_judge_cell(s: &str) -> (r: Option<Option<u32>>)
    ensures
        r == judge_cell(s@),
{
    proof {
        reveal_strlit("　");
    }
    if s.unicode_len() == 0 || str_eq(s, "　") {
        proof {
            if s@.len() > 0 {
                assert(s@ =~= seq!['　']);
            }
        }
        return Some(None);
    }
    proof {
        assert(s@ != seq!['　']) by {
            if s@ == seq!['　'] {
                assert(s@ =~= "　"@);
            }
        }
    }
    match parse_unsigned_max(s, u32::MAX as u64) {
        Some(v) => Some(Some(v as u32)),
        None => None,
    }
}

/// Reads a row of the judgement table from the texts of its cells.
pub fn parse_judge_count_row(cells: &Vec<String>) -> (r: Result<JudgeCount, PlaylogError>)
    ensures
        (exists|i: int| 0 <= i < cells@.len() && judge_cell(#[trigger] cells@[i]@) is None) ==> r
            == Err::<JudgeCount, PlaylogError>(PlaylogError::Format(PlaylogPart::JudgeCell)),
        (forall|i: int| 0 <= i < cells@.len() ==> judge_cell(#[trigger] cells@[i]@) is Some) ==> match judge_row(
            Seq::new(cells@.len(), |i: int| judge_cell(cells@[i]@)->0),
        ) {
            Some(c) => r == Ok::<JudgeCount, PlaylogError>(c),
            None => r == Err::<JudgeCount, PlaylogError>(PlaylogError::UnexpectedRow),
        },
{
    let mut vals: Vec<Option<u32>> = Vec::new();
    let mut i: usize = 0;
    while i < cells.len()
        invariant
            0 <= i <= cells@.len(),
            vals@.len() == i,
            forall|j: int| 0 <= j < i ==> judge_cell(#[trigger] cells@[j]@) == Some(vals@[j]),
        decreases cells@.len() - i,
    {
        match read_judge_cell(cells[i].as_str()) {
            Some(v) => {
                vals.push(v);
            },
            None => {
                proof {
                    assert(judge_cell(cells@[i as int]@) is None);
                }
                return Err(PlaylogError::Format(PlaylogPart::JudgeCell));
            },
        }
        i = i + 1;
    }
    let ghost all = Seq::new(cells@.len(), |j: int| judge_cell(cells@[j]@)->0);
    proof {
        assert(all =~= vals@);
    }
    if vals.len() != 5 {
        return Err(PlaylogError::UnexpectedRow);
    }
    match (vals[0], vals[1], vals[2], vals[3], vals[4]) {
        (None, None, None, None, None) => Ok(JudgeCount::Nothing),
        (a, Some(perfect), Some(great), Some(good), Some(miss)) => {
            let others = JudgeCountWithoutCP { perfect, great, good, miss };
            match a {
                Some(a) => Ok(JudgeCount::JudgeCountWithCP(JudgeCountWithCP { critical_perfect: a, others })),
                None => Ok(JudgeCount::JudgeCountWithoutCP(others)),
            }
        },
        _ => Err(PlaylogError::UnexpectedRow),
    }
}

/// A count that stands alone in a block: a `u32` in decimal.
pub open spec fn count_text(s: Seq<char>) -> Option<u32> {
    match parse_unsigned(s, u32::MAX as nat) {
        Some(v) => Some(v as u32),
        None => None,
    }
}

fn read_count(s: &str, part: PlaylogPart) -> (r: Result<u32, PlaylogError>)
    ensures
        match count_text(s@) {
            Some(v) => r == Ok::<u32, PlaylogError>(v),
            None => r == Err::<u32, PlaylogError>(PlaylogError::Format(part)),
        },
{
    match parse_unsigned_max(s, u32::MAX as u64) {
        Some(v) => Ok(v as u32),
        None => Err(PlaylogError::Format(part)),
    }
}

/// Reads the fast and late counts from the texts of the first two blocks of
/// the fast-late block.
pub fn parse_fast_late(fast: Option<&str>, late: Option<&str>) -> (r: Result<(u32, u32), PlaylogError>)
    ensures
        match fast {
            None => r == Err::<(u32, u32), PlaylogError>(PlaylogError::Missing(PlaylogPart::Fast)),
            Some(f) => match count_text(f@) {
                None => r == Err::<(u32, u32), PlaylogError>(PlaylogError::Format(PlaylogPart::Fast)),
                Some(x) => match late {
                    None => r == Err::<(u32, u32), PlaylogError>(PlaylogError::Missing(PlaylogPart::Late)),
                    Some(l) => match count_text(l@) {
                        None => r == Err::<(u32, u32), PlaylogError>(PlaylogError::Format(PlaylogPart::Late)),
                        Some(y) => r == Ok::<(u32, u32), PlaylogError>((x, y)),
                    },
                },
            },
        },
{
    let x = match fast {
        None => {
            return Err(PlaylogError::Missing(PlaylogPart::Fast));
        },
        Some(f) => read_count(f, PlaylogPart::Fast)?,
    };
    let y = match late {
        None => {
            return Err(PlaylogError::Missing(PlaylogPart::Late));
        },
        Some(l) => read_count(l, PlaylogPart::Late)?,
    };
    Ok((x, y))
}

/// Reads the maximum combo or sync block from the text of its inner block:
/// a hyphen (`―`) when there is none, else a count and its maximum.
pub fn parse_max_combo_sync(inner: Option<&str>, part: PlaylogPart) -> (r: Result<
    Option<ValueWithMax<u32>>,
    PlaylogError,
>)
    ensures
        match inner {
            None => r == Err::<Option<ValueWithMax<u32>>, PlaylogError>(PlaylogError::Missing(part)),
            Some(t) => if t@ == seq!['―'] {
                r == Ok::<Option<ValueWithMax<u32>>, PlaylogError>(None)
            } else {
                match ratio_of_text(t@, "/"@) {
                    Ok((x, y)) => r matches Ok(Some(v)) && v.value_spec() == x && v.max_spec() == y,
                    Err(e) => r == Err::<Option<ValueWithMax<u32>>, PlaylogError>(PlaylogError::Field(part, e)),
                }
            },
        },
{
    let t = match inner {
        None => {
            return Err(PlaylogError::Missing(part));
        },
        Some(t) => t,
    };
    proof {
        reveal_strlit("―");
    }
    if str_eq(t, "―") {
        proof {
            assert(t@ =~= seq!['―']);
        }
        return Ok(None);
    }
    proof {
        assert(t@ != seq!['―']) by {
            if t@ == seq!['―'] {
                assert(t@ =~= "―"@);
            }
        }
    }
    match parse_value_with_max(t) {
        Ok(v) => Ok(Some(v)),
        Err(e) => Err(PlaylogError::Field(part, e)),
    }
}

/// The icons before a life block (nearest first) of a perfect challenge.
pub open spec fn perfect_challenge_icons(icons: Seq<Option<Seq<char>>>) -> bool {
    icons == seq![
        Some("https://maimaidx.jp/maimai-mobile/img/icon_life.png"@),
        Some("https://maimaidx.jp/maimai-mobile/img/icon_perfectchallenge.png"@),
    ] || icons == seq![
        Some("https://maimaidx-eng.com/maimai-mobile/img/icon_life.png"@),
        Some("https://maimaidx-eng.com/maimai-mobile/img/icon_perfectchallenge.png"@),
    ]
}

/// The icons before a life block (nearest first) of a course.
pub open spec fn course_icons(icons: Seq<Option<Seq<char>>>) -> bool {
    icons == seq![
        Some("https://maimaidx.jp/maimai-mobile/img/course/icon_course_life.png"@),
        Some("https://maimaidx.jp/maimai-mobile/img/course/icon_course.png"@),
    ] || icons == seq![
        Some("https://maimaidx-eng.com/maimai-mobile/img/course/icon_course_life.png"@),
        Some("https://maimaidx-eng.com/maimai-mobile/img/course/icon_course.png"@),
    ]
}

/// The life block of a perfect challenge shows the life icon and the
/// perfect-challenge icon, that of a course the course life icon and the
/// course icon, each as an image of either site without a release; no
/// pair of icons is both.
pub proof fn lemma_life_icons(intl: bool)
    ensures
        perfect_challenge_icons(seq![Some(img_src(intl, seq!['i', 'c', 'o', 'n', '_', 'l', 'i', 'f', 'e'], None)), Some(img_src(intl, seq!['i', 'c', 'o', 'n', '_', 'p', 'e', 'r', 'f', 'e', 'c', 't', 'c', 'h', 'a', 'l', 'l', 'e', 'n', 'g', 'e'], None))]),
        course_icons(seq![Some(img_src(intl, seq!['c', 'o', 'u', 'r', 's', 'e', '/', 'i', 'c', 'o', 'n', '_', 'c', 'o', 'u', 'r', 's', 'e', '_', 'l', 'i', 'f', 'e'], None)), Some(img_src(intl, seq!['c', 'o', 'u', 'r', 's', 'e', '/', 'i', 'c', 'o', 'n', '_', 'c', 'o', 'u', 'r', 's', 'e'], None))]),
        forall|icons: Seq<Option<Seq<char>>>| !(#[trigger] perfect_challenge_icons(icons) && course_icons(icons)),
{
    reveal_strlit("https://maimaidx.jp/maimai-mobile/img/icon_life.png");
    reveal_strlit("https://maimaidx.jp/maimai-mobile/img/icon_perfectchallenge.png");
    reveal_strlit("https://maimaidx-eng.com/maimai-mobile/img/icon_life.png");
    reveal_strlit("https://maimaidx-eng.com/maimai-mobile/img/icon_perfectchallenge.png");
    reveal_strlit("https://maimaidx.jp/maimai-mobile/img/course/icon_course_life.png");
    reveal_strlit("https://maimaidx.jp/maimai-mobile/img/course/icon_course.png");
    reveal_strlit("https://maimaidx-eng.com/maimai-mobile/img/course/icon_course_life.png");
    reveal_strlit("https://maimaidx-eng.com/maimai-mobile/img/course/icon_course.png");
    reveal_strlit("https://maimaidx-eng.com/maimai-mobile/img/");
    reveal_strlit("https://maimaidx.jp/maimai-mobile/img/");
    reveal_strlit(".png");
    assert("https://maimaidx.jp/maimai-mobile/img/icon_life.png"@ =~= seq!['h', 't', 't', 'p', 's', ':', '/', '/', 'm', 'a', 'i', 'm', 'a', 'i', 'd', 'x', '.', 'j', 'p', '/', 'm', 'a', 'i', 'm', 'a', 'i', '-', 'm', 'o', 'b', 'i', 'l', 'e', '/', 'i', 'm', 'g', '/', 'i', 'c', 'o', 'n', '_', 'l', 'i', 'f', 'e', '.', 'p', 'n', 'g']);
    assert("https://maimaidx.jp/maimai-mobile/img/icon_perfectchallenge.png"@ =~= seq!['h', 't', 't', 'p', 's', ':', '/', '/', 'm', 'a', 'i', 'm', 'a', 'i', 'd', 'x', '.', 'j', 'p', '/', 'm', 'a', 'i', 'm', 'a', 'i', '-', 'm', 'o', 'b', 'i', 'l', 'e', '/', 'i', 'm', 'g', '/', 'i', 'c', 'o', 'n', '_', 'p', 'e', 'r', 'f', 'e', 'c', 't', 'c', 'h', 'a', 'l', 'l', 'e', 'n', 'g', 'e', '.', 'p', 'n', 'g']);
    assert("https://maimaidx-eng.com/maimai-mobile/img/icon_life.png"@ =~= seq!['h', 't', 't', 'p', 's', ':', '/', '/', 'm', 'a', 'i', 'm', 'a', 'i', 'd', 'x', '-', 'e', 'n', 'g', '.', 'c', 'o', 'm', '/', 'm', 'a', 'i', 'm', 'a', 'i', '-', 'm', 'o', 'b', 'i', 'l', 'e', '/', 'i', 'm', 'g', '/', 'i', 'c', 'o', 'n', '_', 'l', 'i', 'f', 'e', '.', 'p', 'n', 'g']);
    assert("https://maimaidx-eng.com/maimai-mobile/img/icon_perfectchallenge.png"@ =~= seq!['h', 't', 't', 'p', 's', ':', '/', '/', 'm', 'a', 'i', 'm', 'a', 'i', 'd', 'x', '-', 'e', 'n', 'g', '.', 'c', 'o', 'm', '/', 'm', 'a', 'i', 'm', 'a', 'i', '-', 'm', 'o', 'b', 'i', 'l', 'e', '/', 'i', 'm', 'g', '/', 'i', 'c', 'o', 'n', '_', 'p', 'e', 'r', 'f', 'e', 'c', 't', 'c', 'h', 'a', 'l', 'l', 'e', 'n', 'g', 'e', '.', 'p', 'n', 'g']);
    assert("https://maimaidx.jp/maimai-mobile/img/course/icon_course_life.png"@ =~= seq!['h', 't', 't', 'p', 's', ':', '/', '/', 'm', 'a', 'i', 'm', 'a', 'i', 'd', 'x', '.', 'j', 'p', '/', 'm', 'a', 'i', 'm', 'a', 'i', '-', 'm', 'o', 'b', 'i', 'l', 'e', '/', 'i', 'm', 'g', '/', 'c', 'o', 'u', 'r', 's', 'e', '/', 'i', 'c', 'o', 'n', '_', 'c', 'o', 'u', 'r', 's', 'e', '_', 'l', 'i', 'f', 'e', '.', 'p', 'n', 'g']);
    assert("https://maimaidx.jp/maimai-mobile/img/course/icon_course.png"@ =~= seq!['h', 't', 't', 'p', 's', ':', '/', '/', 'm', 'a', 'i', 'm', 'a', 'i', 'd', 'x', '.', 'j', 'p', '/', 'm', 'a', 'i', 'm', 'a', 'i', '-', 'm', 'o', 'b', 'i', 'l', 'e', '/', 'i', 'm', 'g', '/', 'c', 'o', 'u', 'r', 's', 'e', '/', 'i', 'c', 'o', 'n', '_', 'c', 'o', 'u', 'r', 's', 'e', '.', 'p', 'n', 'g']);
    assert("https://maimaidx-eng.com/maimai-mobile/img/course/icon_course_life.png"@ =~= seq!['h', 't', 't', 'p', 's', ':', '/', '/', 'm', 'a', 'i', 'm', 'a', 'i', 'd', 'x', '-', 'e', 'n', 'g', '.', 'c', 'o', 'm', '/', 'm', 'a', 'i', 'm', 'a', 'i', '-', 'm', 'o', 'b', 'i', 'l', 'e', '/', 'i', 'm', 'g', '/', 'c', 'o', 'u', 'r', 's', 'e', '/', 'i', 'c', 'o', 'n', '_', 'c', 'o', 'u', 'r', 's', 'e', '_', 'l', 'i', 'f', 'e', '.', 'p', 'n', 'g']);
    assert("https://maimaidx-eng.com/maimai-mobile/img/course/icon_course.png"@ =~= seq!['h', 't', 't', 'p', 's', ':', '/', '/', 'm', 'a', 'i', 'm', 'a', 'i', 'd', 'x', '-', 'e', 'n', 'g', '.', 'c', 'o', 'm', '/', 'm', 'a', 'i', 'm', 'a', 'i', '-', 'm', 'o', 'b', 'i', 'l', 'e', '/', 'i', 'm', 'g', '/', 'c', 'o', 'u', 'r', 's', 'e', '/', 'i', 'c', 'o', 'n', '_', 'c', 'o', 'u', 'r', 's', 'e', '.', 'p', 'n', 'g']);
    assert(img_src(intl, seq!['i', 'c', 'o', 'n', '_', 'l', 'i', 'f', 'e'], None) =~= if intl { seq!['h', 't', 't', 'p', 's', ':', '/', '/', 'm', 'a', 'i', 'm', 'a', 'i', 'd', 'x', '-', 'e', 'n', 'g', '.', 'c', 'o', 'm', '/', 'm', 'a', 'i', 'm', 'a', 'i', '-', 'm', 'o', 'b', 'i', 'l', 'e', '/', 'i', 'm', 'g', '/', 'i', 'c', 'o', 'n', '_', 'l', 'i', 'f', 'e', '.', 'p', 'n', 'g'] } else { seq!['h', 't', 't', 'p', 's', ':', '/', '/', 'm', 'a', 'i', 'm', 'a', 'i', 'd', 'x', '.', 'j', 'p', '/', 'm', 'a', 'i', 'm', 'a', 'i', '-', 'm', 'o', 'b', 'i', 'l', 'e', '/', 'i', 'm', 'g', '/', 'i', 'c', 'o', 'n', '_', 'l', 'i', 'f', 'e', '.', 'p', 'n', 'g'] });
    assert(img_src(intl, seq!['i', 'c', 'o', 'n', '_', 'p', 'e', 'r', 'f', 'e', 'c', 't', 'c', 'h', 'a', 'l', 'l', 'e', 'n', 'g', 'e'], None) =~= if intl { seq!['h', 't', 't', 'p', 's', ':', '/', '/', 'm', 'a', 'i', 'm', 'a', 'i', 'd', 'x', '-', 'e', 'n', 'g', '.', 'c', 'o', 'm', '/', 'm', 'a', 'i', 'm', 'a', 'i', '-', 'm', 'o', 'b', 'i', 'l', 'e', '/', 'i', 'm', 'g', '/', 'i', 'c', 'o', 'n', '_', 'p', 'e', 'r', 'f', 'e', 'c', 't', 'c', 'h', 'a', 'l', 'l', 'e', 'n', 'g', 'e', '.', 'p', 'n', 'g'] } else { seq!['h', 't', 't', 'p', 's', ':', '/', '/', 'm', 'a', 'i', 'm', 'a', 'i', 'd', 'x', '.', 'j', 'p', '/', 'm', 'a', 'i', 'm', 'a', 'i', '-', 'm', 'o', 'b', 'i', 'l', 'e', '/', 'i', 'm', 'g', '/', 'i', 'c', 'o', 'n', '_', 'p', 'e', 'r', 'f', 'e', 'c', 't', 'c', 'h', 'a', 'l', 'l', 'e', 'n', 'g', 'e', '.', 'p', 'n', 'g'] });
    assert(img_src(intl, seq!['c', 'o', 'u', 'r', 's', 'e', '/', 'i', 'c', 'o', 'n', '_', 'c', 'o', 'u', 'r', 's', 'e', '_', 'l', 'i', 'f', 'e'], None) =~= if intl { seq!['h', 't', 't', 'p', 's', ':', '/', '/', 'm', 'a', 'i', 'm', 'a', 'i', 'd', 'x', '-', 'e', 'n', 'g', '.', 'c', 'o', 'm', '/', 'm', 'a', 'i', 'm', 'a', 'i', '-', 'm', 'o', 'b', 'i', 'l', 'e', '/', 'i', 'm', 'g', '/', 'c', 'o', 'u', 'r', 's', 'e', '/', 'i', 'c', 'o', 'n', '_', 'c', 'o', 'u', 'r', 's', 'e', '_', 'l', 'i', 'f', 'e', '.', 'p', 'n', 'g'] } else { seq!['h', 't', 't', 'p', 's', ':', '/', '/', 'm', 'a', 'i', 'm', 'a', 'i', 'd', 'x', '.', 'j', 'p', '/', 'm', 'a', 'i', 'm', 'a', 'i', '-', 'm', 'o', 'b', 'i', 'l', 'e', '/', 'i', 'm', 'g', '/', 'c', 'o', 'u', 'r', 's', 'e', '/', 'i', 'c', 'o', 'n', '_', 'c', 'o', 'u', 'r', 's', 'e', '_', 'l', 'i', 'f', 'e', '.', 'p', 'n', 'g'] });
    assert(img_src(intl, seq!['c', 'o', 'u', 'r', 's', 'e', '/', 'i', 'c', 'o', 'n', '_', 'c', 'o', 'u', 'r', 's', 'e'], None) =~= if intl { seq!['h', 't', 't', 'p', 's', ':', '/', '/', 'm', 'a', 'i', 'm', 'a', 'i', 'd', 'x', '-', 'e', 'n', 'g', '.', 'c', 'o', 'm', '/', 'm', 'a', 'i', 'm', 'a', 'i', '-', 'm', 'o', 'b', 'i', 'l', 'e', '/', 'i', 'm', 'g', '/', 'c', 'o', 'u', 'r', 's', 'e', '/', 'i', 'c', 'o', 'n', '_', 'c', 'o', 'u', 'r', 's', 'e', '.', 'p', 'n', 'g'] } else { seq!['h', 't', 't', 'p', 's', ':', '/', '/', 'm', 'a', 'i', 'm', 'a', 'i', 'd', 'x', '.', 'j', 'p', '/', 'm', 'a', 'i', 'm', 'a', 'i', '-', 'm', 'o', 'b', 'i', 'l', 'e', '/', 'i', 'm', 'g', '/', 'c', 'o', 'u', 'r', 's', 'e', '/', 'i', 'c', 'o', 'n', '_', 'c', 'o', 'u', 'r', 's', 'e', '.', 'p', 'n', 'g'] });
    assert("https://maimaidx.jp/maimai-mobile/img/icon_life.png"@.len() != "https://maimaidx.jp/maimai-mobile/img/course/icon_course_life.png"@.len());
    assert("https://maimaidx.jp/maimai-mobile/img/icon_life.png"@.len() != "https://maimaidx-eng.com/maimai-mobile/img/course/icon_course_life.png"@.len());
    assert("https://maimaidx-eng.com/maimai-mobile/img/icon_life.png"@.len() != "https://maimaidx.jp/maimai-mobile/img/course/icon_course_life.png"@.len());
    assert("https://maimaidx-eng.com/maimai-mobile/img/icon_life.png"@.len() != "https://maimaidx-eng.com/maimai-mobile/img/course/icon_course_life.png"@.len());
}

pub open spec fn src_views(v: Seq<Option<String>>) -> Seq<Option<Seq<char>>> {
    v.map_values(|o: Option<String>| match o {
        Some(s) => Some(s@),
        None => None,
    })
}

fn is_src(o: &Option<String>, t: &str) -> (r: bool)
    ensures
        r == (o matches Some(s) && s@ == t@),
{
    match o {
        Some(s) => str_eq(s.as_str(), t),
        None => false,
    }
}

/// Reads a life block from its text and the `src` of the elements before
/// it, nearest first: the life of a perfect challenge or of a course.
pub fn parse_life_block(text: &str, icons: &Vec<Option<String>>) -> (r: Result<LifeResult, PlaylogError>)
    ensures
        match ratio_of_text(text@, "/"@) {
            Err(e) => r == Err::<LifeResult, PlaylogError>(PlaylogError::Field(PlaylogPart::Life, e)),
            Ok((x, y)) => if perfect_challenge_icons(src_views(icons@)) {
                r matches Ok(LifeResult::PerfectChallengeResult(v)) && v.value_spec() == x && v.max_spec() == y
            } else if course_icons(src_views(icons@)) {
                r matches Ok(LifeResult::CourseResult(v)) && v.value_spec() == x && v.max_spec() == y
            } else {
                r == Err::<LifeResult, PlaylogError>(PlaylogError::UnexpectedLifeIcons)
            },
        },
{
    proof {
        reveal_strlit("https://maimaidx.jp/maimai-mobile/img/icon_life.png");
        reveal_strlit("https://maimaidx.jp/maimai-mobile/img/icon_perfectchallenge.png");
        reveal_strlit("https://maimaidx-eng.com/maimai-mobile/img/icon_life.png");
        reveal_strlit("https://maimaidx-eng.com/maimai-mobile/img/icon_perfectchallenge.png");
        reveal_strlit("https://maimaidx.jp/maimai-mobile/img/course/icon_course_life.png");
        reveal_strlit("https://maimaidx.jp/maimai-mobile/img/course/icon_course.png");
        reveal_strlit("https://maimaidx-eng.com/maimai-mobile/img/course/icon_course_life.png");
        reveal_strlit("https://maimaidx-eng.com/maimai-mobile/img/course/icon_course.png");
    }
    let value = match parse_value_with_max(text) {
        Ok(v) => v,
        Err(e) => {
            return Err(PlaylogError::Field(PlaylogPart::Life, e));
        },
    };
    let ghost views = src_views(icons@);
    if icons.len() == 2 {
        proof {
            assert(views.len() == 2);
        }
        let pc_jp = is_src(&icons[0], "https://maimaidx.jp/maimai-mobile/img/icon_life.png") && is_src(
            &icons[1],
            "https://maimaidx.jp/maimai-mobile/img/icon_perfectchallenge.png",
        );
        let pc_intl = is_src(&icons[0], "https://maimaidx-eng.com/maimai-mobile/img/icon_life.png") && is_src(
            &icons[1],
            "https://maimaidx-eng.com/maimai-mobile/img/icon_perfectchallenge.png",
        );
        let course_jp = is_src(&icons[0], "https://maimaidx.jp/maimai-mobile/img/course/icon_course_life.png")
            && is_src(&icons[1], "https://maimaidx.jp/maimai-mobile/img/course/icon_course.png");
        let course_intl = is_src(
            &icons[0],
            "https://maimaidx-eng.com/maimai-mobile/img/course/icon_course_life.png",
        ) && is_src(&icons[1], "https://maimaidx-eng.com/maimai-mobile/img/course/icon_course.png");
        proof {
            let pj = seq![
                Some("https://maimaidx.jp/maimai-mobile/img/icon_life.png"@),
                Some("https://maimaidx.jp/maimai-mobile/img/icon_perfectchallenge.png"@),
            ];
            let pi = seq![
                Some("https://maimaidx-eng.com/maimai-mobile/img/icon_life.png"@),
                Some("https://maimaidx-eng.com/maimai-mobile/img/icon_perfectchallenge.png"@),
            ];
            let cj = seq![
                Some("https://maimaidx.jp/maimai-mobile/img/course/icon_course_life.png"@),
                Some("https://maimaidx.jp/maimai-mobile/img/course/icon_course.png"@),
            ];
            let ci = seq![
                Some("https://maimaidx-eng.com/maimai-mobile/img/course/icon_course_life.png"@),
                Some("https://maimaidx-eng.com/maimai-mobile/img/course/icon_course.png"@),
            ];
            assert(pc_jp <==> views =~= pj);
            assert(pc_intl <==> views =~= pi);
            assert(course_jp <==> views =~= cj);
            assert(course_intl <==> views =~= ci);
        }
        if pc_jp || pc_intl {
            return Ok(LifeResult::PerfectChallengeResult(value));
        }
        if course_jp || course_intl {
            return Ok(LifeResult::CourseResult(value));
        }
    }
    proof {
        assert(views.len() == icons@.len());
    }
    Err(PlaylogError::UnexpectedLifeIcons)
}

/// What a span of the other players' block shows: its classes and the text
/// of its first inner block, if there is one.
#[derive(Clone, Debug)]
pub struct MatchingSpan {
    pub classes: Vec<String>,
    pub name: Option<String>,
}

/// What a class of such a span tells: a difficulty (`Some(Some(_))`), a
/// gray block that is passed over (`Some(None)`), or nothing.
pub open spec fn matching_class(c: Seq<char>) -> Option<Option<ScoreDifficulty>> {
    if c == "playlog_basic_container"@ {
        Some(Some(ScoreDifficulty::Basic))
    } else if c == "playlog_advanced_container"@ {
        Some(Some(ScoreDifficulty::Advanced))
    } else if c == "playlog_expert_container"@ {
        Some(Some(ScoreDifficulty::Expert))
    } else if c == "playlog_master_container"@ {
        Some(Some(ScoreDifficulty::Master))
    } else if c == "playlog_remaster_container"@ {
        Some(Some(ScoreDifficulty::ReMaster))
    } else if c == "playlog_utage_container"@ {
        Some(Some(ScoreDifficulty::Utage))
    } else if c == "gray_block"@ {
        Some(None)
    } else {
        None
    }
}

/// Each difficulty container class names its own difficulty, the gray block
/// names none, and two classes that name the same difficulty are the same.
pub proof fn lemma_matching_class_names()
    ensures
        matching_class("playlog_basic_container"@) == Some(Some(ScoreDifficulty::Basic)),
        matching_class("playlog_advanced_container"@) == Some(Some(ScoreDifficulty::Advanced)),
        matching_class("playlog_expert_container"@) == Some(Some(ScoreDifficulty::Expert)),
        matching_class("playlog_master_container"@) == Some(Some(ScoreDifficulty::Master)),
        matching_class("playlog_remaster_container"@) == Some(Some(ScoreDifficulty::ReMaster)),
        matching_class("playlog_utage_container"@) == Some(Some(ScoreDifficulty::Utage)),
        matching_class("gray_block"@) == Some(None::<ScoreDifficulty>),
        forall|c: Seq<char>, e: Seq<char>|
            (#[trigger] matching_class(c)) matches Some(Some(_)) && matching_class(c) == #[trigger] matching_class(e) ==> c == e,
{
    reveal_strlit("playlog_basic_container");
    reveal_strlit("playlog_advanced_container");
    reveal_strlit("playlog_expert_container");
    reveal_strlit("playlog_master_container");
    reveal_strlit("playlog_remaster_container");
    reveal_strlit("playlog_utage_container");
    reveal_strlit("gray_block");
    assert("playlog_advanced_container"@.len() != "playlog_basic_container"@.len());
    assert("playlog_expert_container"@.len() != "playlog_basic_container"@.len());
    assert("playlog_expert_container"@.len() != "playlog_advanced_container"@.len());
    assert("playlog_master_container"@.len() != "playlog_basic_container"@.len());
    assert("playlog_master_container"@.len() != "playlog_advanced_container"@.len());
    assert("playlog_master_container"@[8] != "playlog_expert_container"@[8]);
    assert("playlog_remaster_container"@.len() != "playlog_basic_container"@.len());
    assert("playlog_remaster_container"@[8] != "playlog_advanced_container"@[8]);
    assert("playlog_remaster_container"@.len() != "playlog_expert_container"@.len());
    assert("playlog_remaster_container"@.len() != "playlog_master_container"@.len());
    assert("playlog_utage_container"@[8] != "playlog_basic_container"@[8]);
    assert("playlog_utage_container"@.len() != "playlog_advanced_container"@.len());
    assert("playlog_utage_container"@.len() != "playlog_expert_container"@.len());
    assert("playlog_utage_container"@.len() != "playlog_master_container"@.len());
    assert("playlog_utage_container"@.len() != "playlog_remaster_container"@.len());
    assert("gray_block"@.len() != "playlog_basic_container"@.len());
    assert("gray_block"@.len() != "playlog_advanced_container"@.len());
    assert("gray_block"@.len() != "playlog_expert_container"@.len());
    assert("gray_block"@.len() != "playlog_master_container"@.len());
    assert("gray_block"@.len() != "playlog_remaster_container"@.len());
    assert("gray_block"@.len() != "playlog_utage_container"@.len());
}

/// The first class of the list that tells something.
pub open spec fn first_matching_class(cs: Seq<String>) -> Option<Option<ScoreDifficulty>>
    decreases cs.len(),
{
    if cs.len() == 0 {
        None
    } else if matching_class(cs[0]@) is Some {
        matching_class(cs[0]@)
    } else {
        first_matching_class(cs.drop_first())
    }
}

fn read_matching_class(c: &str) -> (r: Option<Option<ScoreDifficulty>>)
    ensures
        r == matching_class(c@),
{
    proof {
        reveal_strlit("playlog_basic_container");
        reveal_strlit("playlog_advanced_container");
        reveal_strlit("playlog_expert_container");
        reveal_strlit("playlog_master_container");
        reveal_strlit("playlog_remaster_container");
        reveal_strlit("playlog_utage_container");
        reveal_strlit("gray_block");
    }
    if str_eq(c, "playlog_basic_container") {
        Some(Some(ScoreDifficulty::Basic))
    } else if str_eq(c, "playlog_advanced_container") {
        Some(Some(ScoreDifficulty::Advanced))
    } else if str_eq(c, "playlog_expert_container") {
        Some(Some(ScoreDifficulty::Expert))
    } else if str_eq(c, "playlog_master_container") {
        Some(Some(ScoreDifficulty::Master))
    } else if str_eq(c, "playlog_remaster_container") {
        Some(Some(ScoreDifficulty::ReMaster))
    } else if str_eq(c, "playlog_utage_container") {
        Some(Some(ScoreDifficulty::Utage))
    } else if str_eq(c, "gray_block") {
        Some(None)
    } else {
        None
    }
}

fn find_matching_class(cs: &Vec<String>) -> (r: Option<Option<ScoreDifficulty>>)
    ensures
        r == first_matching_class(cs@),
{
    let mut i: usize = 0;
    proof {
        assert(cs@.skip(0) =~= cs@);
    }
    while i < cs.len()
        invariant
            0 <= i <= cs@.len(),
            first_matching_class(cs@) == first_matching_class(cs@.skip(i as int)),
        decreases cs@.len() - i,
    {
        proof {
            assert(cs@.skip(i as int).drop_first() =~= cs@.skip(i + 1));
            assert(cs@.skip(i as int)[0] == cs@[i as int]);
        }
        let c = read_matching_class(cs[i].as_str());
        if c.is_some() {
            return c;
        }
        i = i + 1;
    }
    proof {
        assert(cs@.skip(i as int).len() == 0);
    }
    None
}

/// The span reads: its classes tell something, and a player's span has a
/// name.
pub open spec fn span_reads(sp: MatchingSpan) -> bool {
    match first_matching_class(sp.classes@) {
        None => false,
        Some(None) => true,
        Some(Some(_)) => sp.name is Some,
    }
}

/// Why a span does not read.
pub open spec fn span_error(sp: MatchingSpan) -> PlaylogError {
    match first_matching_class(sp.classes@) {
        None => PlaylogError::Missing(PlaylogPart::MatchingClass),
        _ => PlaylogError::Missing(PlaylogPart::MatchingName),
    }
}

/// The players (difficulty and name) that the spans show, gray blocks left
/// out.
pub open spec fn span_players(spans: Seq<MatchingSpan>) -> Seq<(ScoreDifficulty, Seq<char>)>
    decreases spans.len(),
{
    if spans.len() == 0 {
        Seq::empty()
    } else {
        let rest = span_players(spans.drop_last());
        match (first_matching_class(spans.last().classes@), spans.last().name) {
            (Some(Some(d)), Some(n)) => rest.push((d, n@)),
            _ => rest,
        }
    }
}

/// The difficulty and name of each player.
pub open spec fn player_views(ps: Seq<OtherPlayer>) -> Seq<(ScoreDifficulty, Seq<char>)> {
    ps.map_values(|p: OtherPlayer| (p.difficulty, p.user_name.0@))
}

/// Reads the other players of a multi-player session from the spans of
/// their block: each span is a player (its class tells the difficulty, its
/// inner block the name) or a gray block; one to three players.
pub fn parse_other_players(spans: &Vec<MatchingSpan>) -> (r: Result<OtherPlayersList, PlaylogError>)
    ensures
        (forall|i: int| 0 <= i < spans@.len() ==> span_reads(#[trigger] spans@[i])) ==> {
            let n = span_players(spans@).len();
            if 1 <= n <= 3 {
                r matches Ok(l) && player_views(l.players()) == span_players(spans@)
            } else {
                r == Err::<OtherPlayersList, PlaylogError>(PlaylogError::OtherPlayerCount(n as usize))
            }
        },
        !(forall|i: int| 0 <= i < spans@.len() ==> span_reads(#[trigger] spans@[i])) ==> (r matches Err(e)
            && exists|i: int|
            0 <= i < spans@.len() && (forall|j: int| 0 <= j < i ==> span_reads(#[trigger] spans@[j])) && !span_reads(
                spans@[i],
            ) && e == span_error(spans@[i])),
{
    let mut players: Vec<OtherPlayer> = Vec::new();
    let mut i: usize = 0;
    proof {
        assert(spans@.take(0) =~= Seq::<MatchingSpan>::empty());
        assert(player_views(players@) =~= Seq::empty());
    }
    while i < spans.len()
        invariant
            0 <= i <= spans@.len(),
            forall|j: int| 0 <= j < i ==> span_reads(#[trigger] spans@[j]),
            player_views(players@) == span_players(spans@.take(i as int)),
        decreases spans@.len() - i,
    {
        let sp = &spans[i];
        proof {
            assert(spans@.take(i + 1).drop_last() =~= spans@.take(i as int));
            assert(spans@.take(i + 1).last() == spans@[i as int]);
        }
        match find_matching_class(&sp.classes) {
            None => {
                return Err(PlaylogError::Missing(PlaylogPart::MatchingClass));
            },
            Some(None) => {},
            Some(Some(d)) => match &sp.name {
                None => {
                    return Err(PlaylogError::Missing(PlaylogPart::MatchingName));
                },
                Some(n) => {
                    let ghost before = players@;
                    let p = OtherPlayer { difficulty: d, user_name: UserName(n.clone()) };
                    players.push(p);
                    proof {
                        assert(player_views(players@) =~= player_views(before).push((d, n@)));
                    }
                },
            },
        }
        i = i + 1;
    }
    proof {
        assert(spans@.take(spans@.len() as int) =~= spans@);
    }
    let n = players.len();
    proof {
        assert(player_views(players@).len() == players@.len());
    }
    match OtherPlayersList::try_from_vec(players) {
        Ok(l) => Ok(l),
        Err(_) => Err(PlaylogError::OtherPlayerCount(n)),
    }
}

/// What a tour member's block shows: the `src` of the member's image
/// (`None` when there is no image, `Some(None)` when it has no `src`), and
/// the texts of its star and level blocks.
#[derive(Clone, Debug)]
pub struct CharaFields {
    pub img: Option<Option<String>>,
    pub star: Option<String>,
    pub level: Option<String>,
}

/// The number after a prefix, such as the 3 of `×3` or the 12 of `Lv12`.
pub open spec fn prefixed_count(s: Seq<char>, prefix: Seq<char>) -> Option<u32> {
    if prefix.len() <= s.len() && s.take(prefix.len() as int) == prefix {
        count_text(s.skip(prefix.len() as int))
    } else {
        None
    }
}

fn read_prefixed_count(s: &str, prefix: &str) -> (r: Option<u32>)
    ensures
        r == prefixed_count(s@, prefix@),
{
    let n = s.unicode_len();
    let m = prefix.unicode_len();
    if m > n {
        return None;
    }
    let head = s.substring_char(0, m);
    if !str_eq(head, prefix) {
        proof {
            assert(head@ =~= s@.take(m as int));
        }
        return None;
    }
    proof {
        assert(head@ =~= s@.take(m as int));
    }
    let tail = s.substring_char(m, n);
    proof {
        assert(tail@ =~= s@.skip(m as int));
    }
    match parse_unsigned_max(tail, u32::MAX as u64) {
        Some(v) => Some(v as u32),
        None => None,
    }
}

/// The member that a block shows, or why it does not read; a block without
/// an image shows no member.
pub open spec fn chara_read(f: CharaFields, r: Result<Option<TourMember>, PlaylogError>) -> bool {
    match f.img {
        None => r == Ok::<Option<TourMember>, PlaylogError>(None),
        Some(None) => r == Err::<Option<TourMember>, PlaylogError>(PlaylogError::Missing(PlaylogPart::CharaImg)),
        Some(Some(src)) => match url_text(src@) {
            None => r == Err::<Option<TourMember>, PlaylogError>(PlaylogError::Format(PlaylogPart::CharaImg)),
            Some(icon) => match f.star {
                None => r == Err::<Option<TourMember>, PlaylogError>(PlaylogError::Missing(PlaylogPart::CharaStar)),
                Some(st) => match prefixed_count(st@, seq!['×']) {
                    None => r == Err::<Option<TourMember>, PlaylogError>(
                        PlaylogError::Format(PlaylogPart::CharaStar),
                    ),
                    Some(star) => match f.level {
                        None => r == Err::<Option<TourMember>, PlaylogError>(
                            PlaylogError::Missing(PlaylogPart::CharaLevel),
                        ),
                        Some(lt) => match prefixed_count(lt@, "Lv"@) {
                            None => r == Err::<Option<TourMember>, PlaylogError>(
                                PlaylogError::Format(PlaylogPart::CharaLevel),
                            ),
                            Some(level) => r matches Ok(Some(m)) && m.icon.0@ == icon && m.star == star && m.level
                                == level,
                        },
                    },
                },
            },
        },
    }
}

/// Reads a tour member's block.
pub fn parse_chara(f: &CharaFields) -> (r: Result<Option<TourMember>, PlaylogError>)
    ensures
        chara_read(*f, r),
{
    proof {
        reveal_strlit("×");
        reveal_strlit("Lv");
    }
    let src = match &f.img {
        None => {
            return Ok(None);
        },
        Some(None) => {
            return Err(PlaylogError::Missing(PlaylogPart::CharaImg));
        },
        Some(Some(s)) => s,
    };
    let icon = match parse_url(src.as_str()) {
        Some(t) => TourMemberIcon(t),
        None => {
            return Err(PlaylogError::Format(PlaylogPart::CharaImg));
        },
    };
    let star = match &f.star {
        None => {
            return Err(PlaylogError::Missing(PlaylogPart::CharaStar));
        },
        Some(t) => match read_prefixed_count(t.as_str(), "×") {
            Some(v) => v,
            None => {
                proof {
                    assert("×"@ =~= seq!['×']);
                }
                return Err(PlaylogError::Format(PlaylogPart::CharaStar));
            },
        },
    };
    proof {
        assert("×"@ =~= seq!['×']);
    }
    let level = match &f.level {
        None => {
            return Err(PlaylogError::Missing(PlaylogPart::CharaLevel));
        },
        Some(t) => match read_prefixed_count(t.as_str(), "Lv") {
            Some(v) => v,
            None => {
                return Err(PlaylogError::Format(PlaylogPart::CharaLevel));
            },
        },
    };
    Ok(Some(TourMember { star, icon, level }))
}

/// The block reads: it has no image, or its image, star and level read.
pub open spec fn chara_ok(f: CharaFields) -> bool {
    match f.img {
        None => true,
        Some(None) => false,
        Some(Some(src)) => url_text(src@) is Some && (f.star matches Some(st) && prefixed_count(st@, seq!['×']) is Some)
            && (f.level matches Some(lt) && prefixed_count(lt@, "Lv"@) is Some),
    }
}

/// The member that a block that reads shows: image address, stars and
/// level.
pub open spec fn chara_view(f: CharaFields) -> Option<(Seq<char>, u32, u32)> {
    match (f.img, f.star, f.level) {
        (Some(Some(src)), Some(st), Some(lt)) => Some(
            (url_text(src@)->0, prefixed_count(st@, seq!['×'])->0, prefixed_count(lt@, "Lv"@)->0),
        ),
        _ => None,
    }
}

/// The members that the blocks show, in order.
pub open spec fn chara_views(blocks: Seq<CharaFields>) -> Seq<(Seq<char>, u32, u32)>
    decreases blocks.len(),
{
    if blocks.len() == 0 {
        Seq::empty()
    } else {
        let rest = chara_views(blocks.drop_last());
        match chara_view(blocks.last()) {
            Some(v) => rest.push(v),
            None => rest,
        }
    }
}

/// A member's image address, stars and level.
pub open spec fn member_views(ms: Seq<TourMember>) -> Seq<(Seq<char>, u32, u32)> {
    ms.map_values(|m: TourMember| (m.icon.0@, m.star, m.level))
}

/// The tour members that the blocks show, in order (one to five), or the
/// error of the first block that does not read.
pub fn tour_members(blocks: &Vec<CharaFields>) -> (r: Result<TourMemberList, PlaylogError>)
    ensures
        (forall|i: int| 0 <= i < blocks@.len() ==> chara_ok(#[trigger] blocks@[i])) ==> {
            let v = chara_views(blocks@);
            if 1 <= v.len() <= 5 {
                r matches Ok(l) && member_views(l.members()) == v
            } else {
                r == Err::<TourMemberList, PlaylogError>(PlaylogError::TourMemberCount(v.len() as usize))
            }
        },
        !(forall|i: int| 0 <= i < blocks@.len() ==> chara_ok(#[trigger] blocks@[i])) ==> (r matches Err(e)
            && exists|i: int|
            0 <= i < blocks@.len() && (forall|j: int| 0 <= j < i ==> chara_ok(#[trigger] blocks@[j])) && !chara_ok(
                blocks@[i],
            ) && chara_read(blocks@[i], Err(e))),
{
    proof {
        reveal_strlit("Lv");
    }
    let mut members: Vec<TourMember> = Vec::new();
    let mut i: usize = 0;
    proof {
        assert(blocks@.take(0) =~= Seq::<CharaFields>::empty());
        assert(member_views(members@) =~= Seq::empty());
    }
    while i < blocks.len()
        invariant
            0 <= i <= blocks@.len(),
            member_views(members@) == chara_views(blocks@.take(i as int)),
            forall|j: int| 0 <= j < i ==> chara_ok(#[trigger] blocks@[j]),
        decreases blocks@.len() - i,
    {
        proof {
            assert(blocks@.take(i + 1).drop_last() =~= blocks@.take(i as int));
            assert(blocks@.take(i + 1).last() == blocks@[i as int]);
        }
        match parse_chara(&blocks[i]) {
            Ok(Some(m)) => {
                let ghost before = members@;
                members.push(m);
                proof {
                    assert(member_views(members@) =~= member_views(before).push((m.icon.0@, m.star, m.level)));
                }
            },
            Ok(None) => {},
            Err(e) => {
                return Err(e);
            },
        }
        i = i + 1;
    }
    proof {
        assert(blocks@.take(blocks@.len() as int) =~= blocks@);
    }
    let n = members.len();
    proof {
        assert(member_views(members@).len() == members@.len());
    }
    match TourMemberList::try_from_vec(members) {
        Ok(l) => Ok(l),
        Err(_) => Err(PlaylogError::TourMemberCount(n)),
    }
}

/// The image that marks a cleared play, on either site.
pub open spec fn is_clear_img(s: Seq<char>) -> bool {
    s == "https://maimaidx.jp/maimai-mobile/img/playlog/clear.png"@ || s == "https://maimaidx-eng.com/maimai-mobile/img/playlog/clear.png"@
}

/// The clear mark is the image `playlog/clear` of either site without a
/// release, and no other image.
pub proof fn lemma_clear_img(s: Seq<char>)
    ensures
        is_clear_img(img_src(false, seq!['p', 'l', 'a', 'y', 'l', 'o', 'g', '/', 'c', 'l', 'e', 'a', 'r'], None)),
        is_clear_img(img_src(true, seq!['p', 'l', 'a', 'y', 'l', 'o', 'g', '/', 'c', 'l', 'e', 'a', 'r'], None)),
        is_clear_img(s) ==> s == img_src(false, seq!['p', 'l', 'a', 'y', 'l', 'o', 'g', '/', 'c', 'l', 'e', 'a', 'r'], None) || s == img_src(true, seq!['p', 'l', 'a', 'y', 'l', 'o', 'g', '/', 'c', 'l', 'e', 'a', 'r'], None),
{
    reveal_strlit("https://maimaidx.jp/maimai-mobile/img/playlog/clear.png");
    reveal_strlit("https://maimaidx-eng.com/maimai-mobile/img/playlog/clear.png");
    reveal_strlit("https://maimaidx.jp/maimai-mobile/img/");
    reveal_strlit("https://maimaidx-eng.com/maimai-mobile/img/");
    reveal_strlit(".png");
    assert(img_src(false, seq!['p', 'l', 'a', 'y', 'l', 'o', 'g', '/', 'c', 'l', 'e', 'a', 'r'], None) =~= "https://maimaidx.jp/maimai-mobile/img/playlog/clear.png"@);
    assert(img_src(true, seq!['p', 'l', 'a', 'y', 'l', 'o', 'g', '/', 'c', 'l', 'e', 'a', 'r'], None) =~= "https://maimaidx-eng.com/maimai-mobile/img/playlog/clear.png"@);
}

/// Whether the play was cleared, from the `src` of the first image of the
/// title block (`None` when there is no image): the clear mark of either
/// site, or no image at all.
pub fn parse_cleared(img: Option<Option<&str>>) -> (r: Result<bool, PlaylogError>)
    ensures
        match img {
            None => r == Ok::<bool, PlaylogError>(false),
            Some(Some(s)) => if is_clear_img(s@) {
                r == Ok::<bool, PlaylogError>(true)
            } else {
                r == Err::<bool, PlaylogError>(PlaylogError::Format(PlaylogPart::ClearedImg))
            },
            Some(None) => r == Err::<bool, PlaylogError>(PlaylogError::Format(PlaylogPart::ClearedImg)),
        },
{
    match img {
        None => Ok(false),
        Some(Some(s)) => {
            if str_eq(s, "https://maimaidx.jp/maimai-mobile/img/playlog/clear.png") || str_eq(
                s,
                "https://maimaidx-eng.com/maimai-mobile/img/playlog/clear.png",
            ) {
                Ok(true)
            } else {
                Err(PlaylogError::Format(PlaylogPart::ClearedImg))
            }
        },
        Some(None) => Err(PlaylogError::Format(PlaylogPart::ClearedImg)),
    }
}

/// The generation of the chart: the one its icon shows; an utage chart
/// without an icon counts as a DX one.
pub fn record_generation(difficulty: ScoreDifficulty, generation: Option<ScoreGeneration>) -> (r: Result<
    ScoreGeneration,
    PlaylogError,
>)
    ensures
        match generation {
            Some(g) => r == Ok::<ScoreGeneration, PlaylogError>(g),
            None => if difficulty == ScoreDifficulty::Utage {
                r == Ok::<ScoreGeneration, PlaylogError>(ScoreGeneration::Deluxe)
            } else {
                r == Err::<ScoreGeneration, PlaylogError>(PlaylogError::NoGeneration)
            },
        },
{
    match generation {
        Some(g) => Ok(g),
        None => match difficulty {
            ScoreDifficulty::Utage => Ok(ScoreGeneration::Deluxe),
            _ => Err(PlaylogError::NoGeneration),
        },
    }
}

/// The place of the play, which must be shown when it is expected.
pub fn checked_place(expected: bool, place: Option<PlaceName>) -> (r: Result<Option<PlaceName>, PlaylogError>)
    ensures
        expected && place is None ==> r == Err::<Option<PlaceName>, PlaylogError>(PlaylogError::NoPlace),
        !(expected && place is None) ==> r == Ok::<Option<PlaceName>, PlaylogError>(place),
{
    if expected && place.is_none() {
        Err(PlaylogError::NoPlace)
    } else {
        Ok(place)
    }
}

/// The counts of the break row, which always has critical perfects.
pub fn break_counts(c: JudgeCount) -> (r: Result<JudgeCountWithCP, PlaylogError>)
    ensures
        match c {
            JudgeCount::JudgeCountWithCP(x) => r == Ok::<JudgeCountWithCP, PlaylogError>(x),
            _ => r == Err::<JudgeCountWithCP, PlaylogError>(PlaylogError::BreakWithoutCriticalPerfect),
        },
{
    match c {
        JudgeCount::JudgeCountWithCP(x) => Ok(x),
        _ => Err(PlaylogError::BreakWithoutCriticalPerfect),
    }
}

/// The maximum combo, which must not be a hyphen.
pub fn required_max_combo(v: Option<ValueWithMax<u32>>) -> (r: Result<ValueWithMax<u32>, PlaylogError>)
    ensures
        match v {
            Some(x) => r == Ok::<ValueWithMax<u32>, PlaylogError>(x),
            None => r == Err::<ValueWithMax<u32>, PlaylogError>(PlaylogError::MaxComboHyphen),
        },
{
    match v {
        Some(x) => Ok(x),
        None => Err(PlaylogError::MaxComboHyphen),
    }
}

/// A battle, when kind, outcome and opponent are all shown and the kinds
/// agree; none when none of them is shown.
pub fn battle_result(
    kind: Option<BattleKind>,
    win_or_lose: Option<BattleWinOrLose>,
    opponent: Option<(BattleKind, BattleOpponent)>,
) -> (r: Result<Option<BattleResult>, PlaylogError>)
    ensures
        match (kind, win_or_lose, opponent) {
            (Some(k), Some(w), Some((k2, o))) => if k == k2 {
                r == Ok::<Option<BattleResult>, PlaylogError>(Some(BattleResult { kind: k, win_or_lose: w, opponent: o }))
            } else {
                r == Err::<Option<BattleResult>, PlaylogError>(PlaylogError::InconsistentBattle)
            },
            (None, None, None) => r == Ok::<Option<BattleResult>, PlaylogError>(None),
            _ => r == Err::<Option<BattleResult>, PlaylogError>(PlaylogError::InconsistentBattle),
        },
{
    match (kind, win_or_lose, opponent) {
        (Some(k), Some(w), Some((k2, o))) => {
            if k == k2 {
                Ok(Some(BattleResult { kind: k, win_or_lose: w, opponent: o }))
            } else {
                Err(PlaylogError::InconsistentBattle)
            }
        },
        (None, None, None) => Ok(None),
        _ => Err(PlaylogError::InconsistentBattle),
    }
}

/// A multi-player session, when the maximum sync, the other players and
/// the rank are all shown; none when none of them is shown and there is no
/// full sync.
pub fn matching_result(
    full_sync_kind: FullSyncKind,
    max_sync: Option<ValueWithMax<u32>>,
    other_players: Option<OtherPlayersList>,
    rank: Option<MatchingRank>,
) -> (r: Result<Option<MatchingResult>, PlaylogError>)
    ensures
        match (max_sync, other_players, rank) {
            (Some(m), Some(p), Some(k)) => r == Ok::<Option<MatchingResult>, PlaylogError>(
                Some(MatchingResult { full_sync_kind, max_sync: m, other_players: p, rank: k }),
            ),
            (None, None, None) => if full_sync_kind == FullSyncKind::Nothing {
                r == Ok::<Option<MatchingResult>, PlaylogError>(None)
            } else {
                r == Err::<Option<MatchingResult>, PlaylogError>(PlaylogError::InconsistentMatching)
            },
            _ => r == Err::<Option<MatchingResult>, PlaylogError>(PlaylogError::InconsistentMatching),
        },
{
    match (max_sync, other_players, rank) {
        (Some(m), Some(p), Some(k)) => Ok(Some(MatchingResult { full_sync_kind, max_sync: m, other_players: p, rank: k })),
        (None, None, None) => match full_sync_kind {
            FullSyncKind::Nothing => Ok(None),
            _ => Err(PlaylogError::InconsistentMatching),
        },
        _ => Err(PlaylogError::InconsistentMatching),
    }
}

/// The cover art from the address of the song's image.
pub fn cover_art(src: &str) -> (r: Result<SongIcon, PlaylogError>)
    ensures
        match url_text(src@) {
            Some(t) => r matches Ok(icon) && icon.0@ == t,
            None => r == Err::<SongIcon, PlaylogError>(PlaylogError::Format(PlaylogPart::CoverArt)),
        },
{
    match parse_url(src) {
        Some(t) => Ok(SongIcon(t)),
        None => Err(PlaylogError::Format(PlaylogPart::CoverArt)),
    }
}

} // verus!
