use vstd::prelude::*;

use crate::maimai::associated_user_data::PlayRecord as AssociatedPlayRecord;
use crate::maimai::song_list::database::ScoreForVersionRef;
use crate::maimai::version::MaimaiVersion;
use crate::maimai::rating::{
    is_buddies_plus_or_later, to_lv_spec,
    lemma_rating_precise_bound, rank_coef, rank_coef_spec, rating_precise_spec, single_song_rating_precise, ScoreConstant,
    ScoreLevel,
};
use crate::maimai::schema::latest::{
    AchievementRank, AchievementValue, FullComboKind, JudgeCount, JudgeCountWithoutCP, JudgeResult,
    LifeResult, PlayRecord, RatingBorderColor, RatingResult, ScoreDifficulty, ScoreGeneration,
    ScoreMetadata, JST_OFFSET_SECONDS, time_stamp_text,
};
use crate::text::{
    dec, dec_padded, dec_signed, push_char, push_decimal, push_decimal_padded,
    push_signed_decimal, push_str,
};

verus! {

/// One of the judgement columns that `make_barely_fc` reports.
#[derive(Clone, Copy, PartialEq, Eq, Structural, Debug)]
pub enum JudgeColumn {
    Miss,
    Good,
    Great,
    Perfect,
}

pub open spec fn column_count(c: JudgeColumn, x: JudgeCountWithoutCP) -> u32 {
    match c {
        JudgeColumn::Miss => x.miss,
        JudgeColumn::Good => x.good,
        JudgeColumn::Great => x.great,
        JudgeColumn::Perfect => x.perfect,
    }
}

/// The letter written for a column: m, g, G or P.
pub open spec fn column_char(c: JudgeColumn) -> char {
    match c {
        JudgeColumn::Miss => 'm',
        JudgeColumn::Good => 'g',
        JudgeColumn::Great => 'G',
        JudgeColumn::Perfect => 'P',
    }
}

/// Each column counts its own judgement and is written with its own letter:
/// m for misses, g for goods, G for greats, P for perfects.
pub proof fn lemma_columns(x: JudgeCountWithoutCP)
    ensures
        column_count(JudgeColumn::Miss, x) == x.miss && column_char(JudgeColumn::Miss) == 'm',
        column_count(JudgeColumn::Good, x) == x.good && column_char(JudgeColumn::Good) == 'g',
        column_count(JudgeColumn::Great, x) == x.great && column_char(JudgeColumn::Great) == 'G',
        column_count(JudgeColumn::Perfect, x) == x.perfect && column_char(JudgeColumn::Perfect) == 'P',
        forall|a: JudgeColumn, b: JudgeColumn| #[trigger] column_char(a) == #[trigger] column_char(b) ==> a == b,
{
}

/// The counts without critical perfects, if the chart has notes of the kind.
pub open spec fn without_cp(x: JudgeCount) -> Option<JudgeCountWithoutCP> {
    match x {
        JudgeCount::Nothing => None,
        JudgeCount::JudgeCountWithCP(x) => Some(x.others),
        JudgeCount::JudgeCountWithoutCP(x) => Some(x),
    }
}

/// The note kinds to report, each with its letter: tap (T), hold (H),
/// slide (S) and touch (t) if `include_nonbreak`, then break (B) if
/// `include_break`; kinds the chart does not have are left out.
pub open spec fn report_entries(
    judge: JudgeResult,
    include_nonbreak: bool,
    include_break: bool,
) -> Seq<(char, JudgeCountWithoutCP)> {
    let opt = |c: char, x: JudgeCount|
        if include_nonbreak && without_cp(x) is Some {
            seq![(c, without_cp(x)->0)]
        } else {
            Seq::<(char, JudgeCountWithoutCP)>::empty()
        };
    opt('T', judge.tap) + opt('H', judge.hold) + opt('S', judge.slide) + opt('t', judge.touch) + (
    if include_break {
        seq![('B', judge.break_.others)]
    } else {
        Seq::empty()
    })
}

/// The text for one note kind: e.g. "TG2 " for two greats on taps, "TG "
/// for one, nothing for none.
pub open spec fn report_part(kind: char, column: char, count: u32) -> Seq<char> {
    if count > 0 {
        seq![kind, column] + (if count > 1 { dec(count as nat) } else { Seq::empty() }) + seq![' ']
    } else {
        Seq::empty()
    }
}

pub open spec fn report_text(e: Seq<(char, JudgeCountWithoutCP)>, c: JudgeColumn) -> Seq<char>
    decreases e.len(),
{
    if e.len() == 0 {
        Seq::empty()
    } else {
        report_text(e.drop_last(), c) + report_part(
            e.last().0,
            column_char(c),
            column_count(c, e.last().1),
        )
    }
}

pub open spec fn report_sum(e: Seq<(char, JudgeCountWithoutCP)>, c: JudgeColumn) -> int
    decreases e.len(),
{
    if e.len() == 0 {
        0
    } else {
        report_sum(e.drop_last(), c) + column_count(c, e.last().1)
    }
}

/// All judgements of the chart, critical perfects excluded.
pub open spec fn total_judgements(judge: JudgeResult) -> int {
    let e = report_entries(judge, true, true);
    report_sum(e, JudgeColumn::Miss) + report_sum(e, JudgeColumn::Good) + report_sum(
        e,
        JudgeColumn::Great,
    ) + report_sum(e, JudgeColumn::Perfect)
}

/// Every non-break kind the chart has records critical perfects.
pub open spec fn critical_perfect_available(judge: JudgeResult) -> bool {
    let ok = |x: JudgeCount| !(x is JudgeCountWithoutCP);
    ok(judge.tap) && ok(judge.hold) && ok(judge.slide) && ok(judge.touch)
}

pub open spec fn in_border(x: int, border: int) -> bool {
    1 <= x <= border
}

/// What `make_barely_fc` reports: the smallest achievement the play missed
/// by at most `border` judgements (`max_combo / 50`, at least 10), listing
/// the judgements that spoiled it.
pub open spec fn barely_fc_spec(judge: JudgeResult, max_combo: u32) -> Option<Seq<char>> {
    let border = if max_combo / 50 >= 10 { max_combo / 50 } else { 10 };
    let all = report_entries(judge, true, true);
    let brk = report_entries(judge, false, true);
    let nonbrk = report_entries(judge, true, false);
    let miss = report_sum(all, JudgeColumn::Miss);
    let good = report_sum(all, JudgeColumn::Good);
    let great = report_sum(all, JudgeColumn::Great);
    let perfect_break = report_sum(brk, JudgeColumn::Perfect);
    let perfect_nonbreak = report_sum(nonbrk, JudgeColumn::Perfect);
    let miss_str = report_text(all, JudgeColumn::Miss);
    let good_str = report_text(all, JudgeColumn::Good);
    let great_str = report_text(all, JudgeColumn::Great);
    let pb_str = report_text(brk, JudgeColumn::Perfect);
    let pn_str = report_text(nonbrk, JudgeColumn::Perfect);
    let good_or_less = miss + good;
    let great_or_less = good_or_less + great;
    let polfbagolfo = great_or_less + perfect_break;
    let perfect_or_less = polfbagolfo + perfect_nonbreak;
    if critical_perfect_available(judge) && in_border(perfect_or_less, border as int) {
        Some(pn_str + pb_str + great_str + good_str + miss_str + "for ACP"@)
    } else if in_border(polfbagolfo, border as int) {
        Some(pb_str + great_str + good_str + miss_str + "for AP+"@)
    } else if in_border(great_or_less, border as int) {
        Some(great_str + good_str + miss_str + "for AP"@)
    } else if in_border(good_or_less, border as int) {
        Some(good_str + miss_str + "for FC+"@)
    } else if in_border(miss, border as int) {
        Some(miss_str + "for FC"@)
    } else {
        None
    }
}

fn column_of(c: JudgeColumn, x: JudgeCountWithoutCP) -> (r: u32)
    ensures
        r == column_count(c, x),
{
    match c {
        JudgeColumn::Miss => x.miss,
        JudgeColumn::Good => x.good,
        JudgeColumn::Great => x.great,
        JudgeColumn::Perfect => x.perfect,
    }
}

fn column_letter(c: JudgeColumn) -> (r: char)
    ensures
        r == column_char(c),
{
    match c {
        JudgeColumn::Miss => 'm',
        JudgeColumn::Good => 'g',
        JudgeColumn::Great => 'G',
        JudgeColumn::Perfect => 'P',
    }
}

fn entries(judge: JudgeResult, include_nonbreak: bool, include_break: bool) -> (r: Vec<
    (char, JudgeCountWithoutCP),
>)
    ensures
        r@ == report_entries(judge, include_nonbreak, include_break),
{
    let mut r: Vec<(char, JudgeCountWithoutCP)> = Vec::new();
    if include_nonbreak {
        match judge.tap {
            JudgeCount::Nothing => {},
            JudgeCount::JudgeCountWithCP(x) => r.push(('T', x.others)),
            JudgeCount::JudgeCountWithoutCP(x) => r.push(('T', x)),
        }
        match judge.hold {
            JudgeCount::Nothing => {},
            JudgeCount::JudgeCountWithCP(x) => r.push(('H', x.others)),
            JudgeCount::JudgeCountWithoutCP(x) => r.push(('H', x)),
        }
        match judge.slide {
            JudgeCount::Nothing => {},
            JudgeCount::JudgeCountWithCP(x) => r.push(('S', x.others)),
            JudgeCount::JudgeCountWithoutCP(x) => r.push(('S', x)),
        }
        match judge.touch {
            JudgeCount::Nothing => {},
            JudgeCount::JudgeCountWithCP(x) => r.push(('t', x.others)),
            JudgeCount::JudgeCountWithoutCP(x) => r.push(('t', x)),
        }
    }
    if include_break {
        r.push(('B', judge.break_.others));
    }
    assert(r@ =~= report_entries(judge, include_nonbreak, include_break));
    r
}

proof fn lemma_report_sum_le(e: Seq<(char, JudgeCountWithoutCP)>, c: JudgeColumn, k: int)
    requires
        0 <= k <= e.len(),
    ensures
        0 <= report_sum(e.subrange(0, k), c) <= report_sum(e, c),
    decreases e.len() - k,
{
    if k < e.len() {
        lemma_report_sum_le(e, c, k + 1);
        assert(e.subrange(0, k + 1).drop_last() =~= e.subrange(0, k));
    } else {
        assert(e.subrange(0, k) =~= e);
    }
    lemma_report_sum_nonneg(e.subrange(0, k), c);
}

proof fn lemma_report_sum_nonneg(e: Seq<(char, JudgeCountWithoutCP)>, c: JudgeColumn)
    ensures
        report_sum(e, c) >= 0,
    decreases e.len(),
{
    if e.len() > 0 {
        lemma_report_sum_nonneg(e.drop_last(), c);
    }
}

/// The letters and total of one column over the given note kinds.
fn make(e: &Vec<(char, JudgeCountWithoutCP)>, column: JudgeColumn) -> (r: (u32, String))
    requires
        report_sum(e@, column) <= u32::MAX,
    ensures
        r.0 == report_sum(e@, column),
        r.1@ == report_text(e@, column),
{
    let mut sum: u32 = 0;
    let mut res = String::new();
    let mut i: usize = 0;
    let judge_c = column_letter(column);
    while i < e.len()
        invariant
            0 <= i <= e@.len(),
            judge_c == column_char(column),
            report_sum(e@, column) <= u32::MAX,
            sum == report_sum(e@.subrange(0, i as int), column),
            res@ == report_text(e@.subrange(0, i as int), column),
        decreases e@.len() - i,
    {
        let (kind_c, x) = e[i];
        let count = column_of(column, x);
        proof {
            let p = e@.subrange(0, i + 1);
            assert(p.drop_last() =~= e@.subrange(0, i as int));
            assert(p.last() == e@[i as int]);
            lemma_report_sum_le(e@, column, i + 1);
        }
        if count > 0 {
            sum = sum + count;
            push_char(&mut res, kind_c);
            push_char(&mut res, judge_c);
            if count > 1 {
                push_decimal(&mut res, count as u64);
            }
            push_char(&mut res, ' ');
        }
        i = i + 1;
    }
    assert(e@.subrange(0, i as int) =~= e@);
    (sum, res)
}

/// Appends `t` (a literal).
fn append(r: &mut String, t: &str)
    ensures
        final(r)@ == old(r)@ + t@,
{
    crate::text::push_str(r, t);
}

/// How close a play came to the next combo achievement, e.g. "TG2 for AP".
pub fn make_barely_fc(judge: JudgeResult, max_combo: u32) -> (r: Option<String>)
    requires
        total_judgements(judge) <= u32::MAX,
    ensures
        match barely_fc_spec(judge, max_combo) {
            None => r is None,
            Some(s) => r matches Some(t) && t@ == s,
        },
{
    let border = if max_combo / 50 >= 10 { max_combo / 50 } else { 10 };
    let all = entries(judge, true, true);
    let brk = entries(judge, false, true);
    let nonbrk = entries(judge, true, false);
    proof {
        lemma_report_sum_nonneg(all@, JudgeColumn::Miss);
        lemma_report_sum_nonneg(all@, JudgeColumn::Good);
        lemma_report_sum_nonneg(all@, JudgeColumn::Great);
        lemma_report_sum_nonneg(all@, JudgeColumn::Perfect);
        lemma_split_perfect(judge);
    }
    let (miss, miss_str) = make(&all, JudgeColumn::Miss);
    let (good, good_str) = make(&all, JudgeColumn::Good);
    let (great, great_str) = make(&all, JudgeColumn::Great);
    let (perfect_break, perfect_break_str) = make(&brk, JudgeColumn::Perfect);
    let (perfect_nonbreak, perfect_nonbreak_str) = make(&nonbrk, JudgeColumn::Perfect);

    let good_or_less = miss + good;
    let great_or_less = good_or_less + great;
    let polfbagolfo = great_or_less + perfect_break;
    let perfect_or_less = polfbagolfo + perfect_nonbreak;

    let cp_ok = |x: JudgeCount| -> (b: bool)
        ensures
            b == !(x is JudgeCountWithoutCP),
        {
            match x {
                JudgeCount::Nothing => true,
                JudgeCount::JudgeCountWithCP(_) => true,
                JudgeCount::JudgeCountWithoutCP(_) => false,
            }
        };
    let critical_perfect_available = cp_ok(judge.tap) && cp_ok(judge.hold) && cp_ok(judge.slide)
        && cp_ok(judge.touch);
    let mut r = String::new();
    if critical_perfect_available && 1 <= perfect_or_less && perfect_or_less <= border {
        append(&mut r, perfect_nonbreak_str.as_str());
        append(&mut r, perfect_break_str.as_str());
        append(&mut r, great_str.as_str());
        append(&mut r, good_str.as_str());
        append(&mut r, miss_str.as_str());
        append(&mut r, "for ACP");
    } else if 1 <= polfbagolfo && polfbagolfo <= border {
        append(&mut r, perfect_break_str.as_str());
        append(&mut r, great_str.as_str());
        append(&mut r, good_str.as_str());
        append(&mut r, miss_str.as_str());
        append(&mut r, "for AP+");
    } else if 1 <= great_or_less && great_or_less <= border {
        append(&mut r, great_str.as_str());
        append(&mut r, good_str.as_str());
        append(&mut r, miss_str.as_str());
        append(&mut r, "for AP");
    } else if 1 <= good_or_less && good_or_less <= border {
        append(&mut r, good_str.as_str());
        append(&mut r, miss_str.as_str());
        append(&mut r, "for FC+");
    } else if 1 <= miss && miss <= border {
        append(&mut r, miss_str.as_str());
        append(&mut r, "for FC");
    } else {
        return None;
    }
    proof {
        assert(r@ =~= barely_fc_spec(judge, max_combo)->0);
    }
    Some(r)
}

/// The perfects of breaks and of the other kinds add up to all perfects.
proof fn lemma_split_perfect(judge: JudgeResult)
    ensures
        report_sum(report_entries(judge, false, true), JudgeColumn::Perfect) + report_sum(
            report_entries(judge, true, false),
            JudgeColumn::Perfect,
        ) == report_sum(report_entries(judge, true, true), JudgeColumn::Perfect),
        report_sum(report_entries(judge, false, true), JudgeColumn::Perfect) >= 0,
        report_sum(report_entries(judge, true, false), JudgeColumn::Perfect) >= 0,
{
    let all = report_entries(judge, true, true);
    let nb = report_entries(judge, true, false);
    let b = report_entries(judge, false, true);
    assert(all =~= nb + b);
    assert(b.len() == 1);
    assert(all.drop_last() =~= nb);
    assert(b.drop_last() =~= Seq::<(char, JudgeCountWithoutCP)>::empty());
    assert(report_sum(b.drop_last(), JudgeColumn::Perfect) == 0);
    assert(all.last() == b.last());
    assert(report_sum(all, JudgeColumn::Perfect) == report_sum(all.drop_last(), JudgeColumn::Perfect) + column_count(JudgeColumn::Perfect, all.last().1));
    assert(report_sum(b, JudgeColumn::Perfect) == report_sum(b.drop_last(), JudgeColumn::Perfect) + column_count(JudgeColumn::Perfect, b.last().1));
    lemma_report_sum_nonneg(nb, JudgeColumn::Perfect);
}

} // verus!

verus! {

/// The level to show for a play: the exact constant when it is known,
/// otherwise the displayed level.
#[derive(Clone, Copy, PartialEq, Eq, Structural, Debug)]
pub enum KnownLevel {
    Constant(ScoreConstant),
    Level(ScoreLevel),
}

/// "Utg" for utage charts, otherwise the generation and the difficulty,
/// e.g. "DX Mas".
pub open spec fn score_kind_text(m: ScoreMetadata) -> Seq<char> {
    match m.difficulty {
        ScoreDifficulty::Utage => "Utg"@,
        _ => generation_abbrev(m.generation) + seq![' '] + difficulty_abbrev(m.difficulty),
    }
}

pub open spec fn generation_abbrev(g: ScoreGeneration) -> Seq<char> {
    match g {
        ScoreGeneration::Standard => "Std"@,
        ScoreGeneration::Deluxe => "DX"@,
    }
}

/// Each generation is written as its own text, and different values are
/// written differently, so the text names the value.
pub proof fn lemma_generation_abbrev_texts()
    ensures
        generation_abbrev(ScoreGeneration::Standard) == seq!['S', 't', 'd'],
        generation_abbrev(ScoreGeneration::Deluxe) == seq!['D', 'X'],
        forall|a: ScoreGeneration, b: ScoreGeneration| #[trigger] generation_abbrev(a) == #[trigger] generation_abbrev(b) ==> a == b,
{
    reveal_strlit("Std");
    reveal_strlit("DX");
    assert(generation_abbrev(ScoreGeneration::Standard) =~= seq!['S', 't', 'd']);
    assert(generation_abbrev(ScoreGeneration::Deluxe) =~= seq!['D', 'X']);
    assert(generation_abbrev(ScoreGeneration::Deluxe).len() != generation_abbrev(ScoreGeneration::Standard).len());
}

pub open spec fn difficulty_abbrev(d: ScoreDifficulty) -> Seq<char> {
    match d {
        ScoreDifficulty::Basic => "Bas"@,
        ScoreDifficulty::Advanced => "Adv"@,
        ScoreDifficulty::Expert => "Exp"@,
        ScoreDifficulty::Master => "Mas"@,
        ScoreDifficulty::ReMaster => "ReMas"@,
        ScoreDifficulty::Utage => "Utg"@,
    }
}

/// Each difficulty is written as its own text, and different values are
/// written differently, so the text names the value.
pub proof fn lemma_difficulty_abbrev_texts()
    ensures
        difficulty_abbrev(ScoreDifficulty::Basic) == seq!['B', 'a', 's'],
        difficulty_abbrev(ScoreDifficulty::Advanced) == seq!['A', 'd', 'v'],
        difficulty_abbrev(ScoreDifficulty::Expert) == seq!['E', 'x', 'p'],
        difficulty_abbrev(ScoreDifficulty::Master) == seq!['M', 'a', 's'],
        difficulty_abbrev(ScoreDifficulty::ReMaster) == seq!['R', 'e', 'M', 'a', 's'],
        difficulty_abbrev(ScoreDifficulty::Utage) == seq!['U', 't', 'g'],
        forall|a: ScoreDifficulty, b: ScoreDifficulty| #[trigger] difficulty_abbrev(a) == #[trigger] difficulty_abbrev(b) ==> a == b,
{
    reveal_strlit("Bas");
    reveal_strlit("Adv");
    reveal_strlit("Exp");
    reveal_strlit("Mas");
    reveal_strlit("ReMas");
    reveal_strlit("Utg");
    assert(difficulty_abbrev(ScoreDifficulty::Basic) =~= seq!['B', 'a', 's']);
    assert(difficulty_abbrev(ScoreDifficulty::Advanced) =~= seq!['A', 'd', 'v']);
    assert(difficulty_abbrev(ScoreDifficulty::Expert) =~= seq!['E', 'x', 'p']);
    assert(difficulty_abbrev(ScoreDifficulty::Master) =~= seq!['M', 'a', 's']);
    assert(difficulty_abbrev(ScoreDifficulty::ReMaster) =~= seq!['R', 'e', 'M', 'a', 's']);
    assert(difficulty_abbrev(ScoreDifficulty::Utage) =~= seq!['U', 't', 'g']);
    assert(difficulty_abbrev(ScoreDifficulty::Advanced)[0] != difficulty_abbrev(ScoreDifficulty::Basic)[0]);
    assert(difficulty_abbrev(ScoreDifficulty::Expert)[0] != difficulty_abbrev(ScoreDifficulty::Basic)[0]);
    assert(difficulty_abbrev(ScoreDifficulty::Expert)[0] != difficulty_abbrev(ScoreDifficulty::Advanced)[0]);
    assert(difficulty_abbrev(ScoreDifficulty::Master)[0] != difficulty_abbrev(ScoreDifficulty::Basic)[0]);
    assert(difficulty_abbrev(ScoreDifficulty::Master)[0] != difficulty_abbrev(ScoreDifficulty::Advanced)[0]);
    assert(difficulty_abbrev(ScoreDifficulty::Master)[0] != difficulty_abbrev(ScoreDifficulty::Expert)[0]);
    assert(difficulty_abbrev(ScoreDifficulty::ReMaster).len() != difficulty_abbrev(ScoreDifficulty::Basic).len());
    assert(difficulty_abbrev(ScoreDifficulty::ReMaster).len() != difficulty_abbrev(ScoreDifficulty::Advanced).len());
    assert(difficulty_abbrev(ScoreDifficulty::ReMaster).len() != difficulty_abbrev(ScoreDifficulty::Expert).len());
    assert(difficulty_abbrev(ScoreDifficulty::ReMaster).len() != difficulty_abbrev(ScoreDifficulty::Master).len());
    assert(difficulty_abbrev(ScoreDifficulty::Utage)[0] != difficulty_abbrev(ScoreDifficulty::Basic)[0]);
    assert(difficulty_abbrev(ScoreDifficulty::Utage)[0] != difficulty_abbrev(ScoreDifficulty::Advanced)[0]);
    assert(difficulty_abbrev(ScoreDifficulty::Utage)[0] != difficulty_abbrev(ScoreDifficulty::Expert)[0]);
    assert(difficulty_abbrev(ScoreDifficulty::Utage)[0] != difficulty_abbrev(ScoreDifficulty::Master)[0]);
    assert(difficulty_abbrev(ScoreDifficulty::Utage).len() != difficulty_abbrev(ScoreDifficulty::ReMaster).len());
}

/// The kind of chart as the message names it.
pub fn describe_score_kind(metadata: ScoreMetadata) -> (r: String)
    ensures
        r@ == score_kind_text(metadata),
{
    let mut r = String::new();
    match metadata.difficulty {
        ScoreDifficulty::Utage => push_str(&mut r, "Utg"),
        _ => {
            push_str(&mut r, metadata.generation.abbrev());
            push_char(&mut r, ' ');
            push_str(&mut r, metadata.difficulty.abbrev());
        },
    }
    r
}

pub open spec fn rank_text(r: AchievementRank) -> Seq<char> {
    match r {
        AchievementRank::D => "D"@,
        AchievementRank::C => "C"@,
        AchievementRank::BBB => "BBB"@,
        AchievementRank::BB => "BB"@,
        AchievementRank::B => "B"@,
        AchievementRank::A => "A"@,
        AchievementRank::AA => "AA"@,
        AchievementRank::AAA => "AAA"@,
        AchievementRank::S => "S"@,
        AchievementRank::SPlus => "S+"@,
        AchievementRank::SS => "SS"@,
        AchievementRank::SSPlus => "SS+"@,
        AchievementRank::SSS => "SSS"@,
        AchievementRank::SSSPlus => "SSS+"@,
    }
}

/// Each rank is written as its own text, and different values are
/// written differently, so the text names the value.
pub proof fn lemma_rank_text_texts()
    ensures
        rank_text(AchievementRank::D) == seq!['D'],
        rank_text(AchievementRank::C) == seq!['C'],
        rank_text(AchievementRank::BBB) == seq!['B', 'B', 'B'],
        rank_text(AchievementRank::BB) == seq!['B', 'B'],
        rank_text(AchievementRank::B) == seq!['B'],
        rank_text(AchievementRank::A) == seq!['A'],
        rank_text(AchievementRank::AA) == seq!['A', 'A'],
        rank_text(AchievementRank::AAA) == seq!['A', 'A', 'A'],
        rank_text(AchievementRank::S) == seq!['S'],
        rank_text(AchievementRank::SPlus) == seq!['S', '+'],
        rank_text(AchievementRank::SS) == seq!['S', 'S'],
        rank_text(AchievementRank::SSPlus) == seq!['S', 'S', '+'],
        rank_text(AchievementRank::SSS) == seq!['S', 'S', 'S'],
        rank_text(AchievementRank::SSSPlus) == seq!['S', 'S', 'S', '+'],
        forall|a: AchievementRank, b: AchievementRank| #[trigger] rank_text(a) == #[trigger] rank_text(b) ==> a == b,
{
    reveal_strlit("D");
    reveal_strlit("C");
    reveal_strlit("BBB");
    reveal_strlit("BB");
    reveal_strlit("B");
    reveal_strlit("A");
    reveal_strlit("AA");
    reveal_strlit("AAA");
    reveal_strlit("S");
    reveal_strlit("S+");
    reveal_strlit("SS");
    reveal_strlit("SS+");
    reveal_strlit("SSS");
    reveal_strlit("SSS+");
    assert(rank_text(AchievementRank::D) =~= seq!['D']);
    assert(rank_text(AchievementRank::C) =~= seq!['C']);
    assert(rank_text(AchievementRank::BBB) =~= seq!['B', 'B', 'B']);
    assert(rank_text(AchievementRank::BB) =~= seq!['B', 'B']);
    assert(rank_text(AchievementRank::B) =~= seq!['B']);
    assert(rank_text(AchievementRank::A) =~= seq!['A']);
    assert(rank_text(AchievementRank::AA) =~= seq!['A', 'A']);
    assert(rank_text(AchievementRank::AAA) =~= seq!['A', 'A', 'A']);
    assert(rank_text(AchievementRank::S) =~= seq!['S']);
    assert(rank_text(AchievementRank::SPlus) =~= seq!['S', '+']);
    assert(rank_text(AchievementRank::SS) =~= seq!['S', 'S']);
    assert(rank_text(AchievementRank::SSPlus) =~= seq!['S', 'S', '+']);
    assert(rank_text(AchievementRank::SSS) =~= seq!['S', 'S', 'S']);
    assert(rank_text(AchievementRank::SSSPlus) =~= seq!['S', 'S', 'S', '+']);
    assert(rank_text(AchievementRank::C)[0] != rank_text(AchievementRank::D)[0]);
    assert(rank_text(AchievementRank::BBB).len() != rank_text(AchievementRank::D).len());
    assert(rank_text(AchievementRank::BBB).len() != rank_text(AchievementRank::C).len());
    assert(rank_text(AchievementRank::BB).len() != rank_text(AchievementRank::D).len());
    assert(rank_text(AchievementRank::BB).len() != rank_text(AchievementRank::C).len());
    assert(rank_text(AchievementRank::BB).len() != rank_text(AchievementRank::BBB).len());
    assert(rank_text(AchievementRank::B)[0] != rank_text(AchievementRank::D)[0]);
    assert(rank_text(AchievementRank::B)[0] != rank_text(AchievementRank::C)[0]);
    assert(rank_text(AchievementRank::B).len() != rank_text(AchievementRank::BBB).len());
    assert(rank_text(AchievementRank::B).len() != rank_text(AchievementRank::BB).len());
    assert(rank_text(AchievementRank::A)[0] != rank_text(AchievementRank::D)[0]);
    assert(rank_text(AchievementRank::A)[0] != rank_text(AchievementRank::C)[0]);
    assert(rank_text(AchievementRank::A).len() != rank_text(AchievementRank::BBB).len());
    assert(rank_text(AchievementRank::A).len() != rank_text(AchievementRank::BB).len());
    assert(rank_text(AchievementRank::A)[0] != rank_text(AchievementRank::B)[0]);
    assert(rank_text(AchievementRank::AA).len() != rank_text(AchievementRank::D).len());
    assert(rank_text(AchievementRank::AA).len() != rank_text(AchievementRank::C).len());
    assert(rank_text(AchievementRank::AA).len() != rank_text(AchievementRank::BBB).len());
    assert(rank_text(AchievementRank::AA)[0] != rank_text(AchievementRank::BB)[0]);
    assert(rank_text(AchievementRank::AA).len() != rank_text(AchievementRank::B).len());
    assert(rank_text(AchievementRank::AA).len() != rank_text(AchievementRank::A).len());
    assert(rank_text(AchievementRank::AAA).len() != rank_text(AchievementRank::D).len());
    assert(rank_text(AchievementRank::AAA).len() != rank_text(AchievementRank::C).len());
    assert(rank_text(AchievementRank::AAA)[0] != rank_text(AchievementRank::BBB)[0]);
    assert(rank_text(AchievementRank::AAA).len() != rank_text(AchievementRank::BB).len());
    assert(rank_text(AchievementRank::AAA).len() != rank_text(AchievementRank::B).len());
    assert(rank_text(AchievementRank::AAA).len() != rank_text(AchievementRank::A).len());
    assert(rank_text(AchievementRank::AAA).len() != rank_text(AchievementRank::AA).len());
    assert(rank_text(AchievementRank::S)[0] != rank_text(AchievementRank::D)[0]);
    assert(rank_text(AchievementRank::S)[0] != rank_text(AchievementRank::C)[0]);
    assert(rank_text(AchievementRank::S).len() != rank_text(AchievementRank::BBB).len());
    assert(rank_text(AchievementRank::S).len() != rank_text(AchievementRank::BB).len());
    assert(rank_text(AchievementRank::S)[0] != rank_text(AchievementRank::B)[0]);
    assert(rank_text(AchievementRank::S)[0] != rank_text(AchievementRank::A)[0]);
    assert(rank_text(AchievementRank::S).len() != rank_text(AchievementRank::AA).len());
    assert(rank_text(AchievementRank::S).len() != rank_text(AchievementRank::AAA).len());
    assert(rank_text(AchievementRank::SPlus).len() != rank_text(AchievementRank::D).len());
    assert(rank_text(AchievementRank::SPlus).len() != rank_text(AchievementRank::C).len());
    assert(rank_text(AchievementRank::SPlus).len() != rank_text(AchievementRank::BBB).len());
    assert(rank_text(AchievementRank::SPlus)[0] != rank_text(AchievementRank::BB)[0]);
    assert(rank_text(AchievementRank::SPlus).len() != rank_text(AchievementRank::B).len());
    assert(rank_text(AchievementRank::SPlus).len() != rank_text(AchievementRank::A).len());
    assert(rank_text(AchievementRank::SPlus)[0] != rank_text(AchievementRank::AA)[0]);
    assert(rank_text(AchievementRank::SPlus).len() != rank_text(AchievementRank::AAA).len());
    assert(rank_text(AchievementRank::SPlus).len() != rank_text(AchievementRank::S).len());
    assert(rank_text(AchievementRank::SS).len() != rank_text(AchievementRank::D).len());
    assert(rank_text(AchievementRank::SS).len() != rank_text(AchievementRank::C).len());
    assert(rank_text(AchievementRank::SS).len() != rank_text(AchievementRank::BBB).len());
    assert(rank_text(AchievementRank::SS)[0] != rank_text(AchievementRank::BB)[0]);
    assert(rank_text(AchievementRank::SS).len() != rank_text(AchievementRank::B).len());
    assert(rank_text(AchievementRank::SS).len() != rank_text(AchievementRank::A).len());
    assert(rank_text(AchievementRank::SS)[0] != rank_text(AchievementRank::AA)[0]);
    assert(rank_text(AchievementRank::SS).len() != rank_text(AchievementRank::AAA).len());
    assert(rank_text(AchievementRank::SS).len() != rank_text(AchievementRank::S).len());
    assert(rank_text(AchievementRank::SS)[1] != rank_text(AchievementRank::SPlus)[1]);
    assert(rank_text(AchievementRank::SSPlus).len() != rank_text(AchievementRank::D).len());
    assert(rank_text(AchievementRank::SSPlus).len() != rank_text(AchievementRank::C).len());
    assert(rank_text(AchievementRank::SSPlus)[0] != rank_text(AchievementRank::BBB)[0]);
    assert(rank_text(AchievementRank::SSPlus).len() != rank_text(AchievementRank::BB).len());
    assert(rank_text(AchievementRank::SSPlus).len() != rank_text(AchievementRank::B).len());
    assert(rank_text(AchievementRank::SSPlus).len() != rank_text(AchievementRank::A).len());
    assert(rank_text(AchievementRank::SSPlus).len() != rank_text(AchievementRank::AA).len());
    assert(rank_text(AchievementRank::SSPlus)[0] != rank_text(AchievementRank::AAA)[0]);
    assert(rank_text(AchievementRank::SSPlus).len() != rank_text(AchievementRank::S).len());
    assert(rank_text(AchievementRank::SSPlus).len() != rank_text(AchievementRank::SPlus).len());
    assert(rank_text(AchievementRank::SSPlus).len() != rank_text(AchievementRank::SS).len());
    assert(rank_text(AchievementRank::SSS).len() != rank_text(AchievementRank::D).len());
    assert(rank_text(AchievementRank::SSS).len() != rank_text(AchievementRank::C).len());
    assert(rank_text(AchievementRank::SSS)[0] != rank_text(AchievementRank::BBB)[0]);
    assert(rank_text(AchievementRank::SSS).len() != rank_text(AchievementRank::BB).len());
    assert(rank_text(AchievementRank::SSS).len() != rank_text(AchievementRank::B).len());
    assert(rank_text(AchievementRank::SSS).len() != rank_text(AchievementRank::A).len());
    assert(rank_text(AchievementRank::SSS).len() != rank_text(AchievementRank::AA).len());
    assert(rank_text(AchievementRank::SSS)[0] != rank_text(AchievementRank::AAA)[0]);
    assert(rank_text(AchievementRank::SSS).len() != rank_text(AchievementRank::S).len());
    assert(rank_text(AchievementRank::SSS).len() != rank_text(AchievementRank::SPlus).len());
    assert(rank_text(AchievementRank::SSS).len() != rank_text(AchievementRank::SS).len());
    assert(rank_text(AchievementRank::SSS)[2] != rank_text(AchievementRank::SSPlus)[2]);
    assert(rank_text(AchievementRank::SSSPlus).len() != rank_text(AchievementRank::D).len());
    assert(rank_text(AchievementRank::SSSPlus).len() != rank_text(AchievementRank::C).len());
    assert(rank_text(AchievementRank::SSSPlus).len() != rank_text(AchievementRank::BBB).len());
    assert(rank_text(AchievementRank::SSSPlus).len() != rank_text(AchievementRank::BB).len());
    assert(rank_text(AchievementRank::SSSPlus).len() != rank_text(AchievementRank::B).len());
    assert(rank_text(AchievementRank::SSSPlus).len() != rank_text(AchievementRank::A).len());
    assert(rank_text(AchievementRank::SSSPlus).len() != rank_text(AchievementRank::AA).len());
    assert(rank_text(AchievementRank::SSSPlus).len() != rank_text(AchievementRank::AAA).len());
    assert(rank_text(AchievementRank::SSSPlus).len() != rank_text(AchievementRank::S).len());
    assert(rank_text(AchievementRank::SSSPlus).len() != rank_text(AchievementRank::SPlus).len());
    assert(rank_text(AchievementRank::SSSPlus).len() != rank_text(AchievementRank::SS).len());
    assert(rank_text(AchievementRank::SSSPlus).len() != rank_text(AchievementRank::SSPlus).len());
    assert(rank_text(AchievementRank::SSSPlus).len() != rank_text(AchievementRank::SSS).len());
}

fn push_rank_text(s: &mut String, r: AchievementRank)
    ensures
        final(s)@ == old(s)@ + rank_text(r),
{
    let t = match r {
        AchievementRank::D => "D",
        AchievementRank::C => "C",
        AchievementRank::BBB => "BBB",
        AchievementRank::BB => "BB",
        AchievementRank::B => "B",
        AchievementRank::A => "A",
        AchievementRank::AA => "AA",
        AchievementRank::AAA => "AAA",
        AchievementRank::S => "S",
        AchievementRank::SPlus => "S+",
        AchievementRank::SS => "SS",
        AchievementRank::SSPlus => "SS+",
        AchievementRank::SSS => "SSS",
        AchievementRank::SSSPlus => "SSS+",
    };
    push_str(s, t);
}

pub open spec fn full_combo_text(k: FullComboKind) -> Seq<char> {
    match k {
        FullComboKind::Nothing => Seq::empty(),
        FullComboKind::FullCombo => "FC"@,
        FullComboKind::FullComboPlus => "FC+"@,
        FullComboKind::AllPerfect => "AP"@,
        FullComboKind::AllPerfectPlus => "AP+"@,
    }
}

/// Each full-combo kind is written as its own text, and different values are
/// written differently, so the text names the value.
pub proof fn lemma_full_combo_text_texts()
    ensures
        full_combo_text(FullComboKind::Nothing) == Seq::<char>::empty(),
        full_combo_text(FullComboKind::FullCombo) == seq!['F', 'C'],
        full_combo_text(FullComboKind::FullComboPlus) == seq!['F', 'C', '+'],
        full_combo_text(FullComboKind::AllPerfect) == seq!['A', 'P'],
        full_combo_text(FullComboKind::AllPerfectPlus) == seq!['A', 'P', '+'],
        forall|a: FullComboKind, b: FullComboKind| #[trigger] full_combo_text(a) == #[trigger] full_combo_text(b) ==> a == b,
{
    reveal_strlit("FC");
    reveal_strlit("FC+");
    reveal_strlit("AP");
    reveal_strlit("AP+");
    assert(full_combo_text(FullComboKind::Nothing) =~= Seq::<char>::empty());
    assert(full_combo_text(FullComboKind::FullCombo) =~= seq!['F', 'C']);
    assert(full_combo_text(FullComboKind::FullComboPlus) =~= seq!['F', 'C', '+']);
    assert(full_combo_text(FullComboKind::AllPerfect) =~= seq!['A', 'P']);
    assert(full_combo_text(FullComboKind::AllPerfectPlus) =~= seq!['A', 'P', '+']);
    assert(full_combo_text(FullComboKind::FullCombo).len() != full_combo_text(FullComboKind::Nothing).len());
    assert(full_combo_text(FullComboKind::FullComboPlus).len() != full_combo_text(FullComboKind::Nothing).len());
    assert(full_combo_text(FullComboKind::FullComboPlus).len() != full_combo_text(FullComboKind::FullCombo).len());
    assert(full_combo_text(FullComboKind::AllPerfect).len() != full_combo_text(FullComboKind::Nothing).len());
    assert(full_combo_text(FullComboKind::AllPerfect)[0] != full_combo_text(FullComboKind::FullCombo)[0]);
    assert(full_combo_text(FullComboKind::AllPerfect).len() != full_combo_text(FullComboKind::FullComboPlus).len());
    assert(full_combo_text(FullComboKind::AllPerfectPlus).len() != full_combo_text(FullComboKind::Nothing).len());
    assert(full_combo_text(FullComboKind::AllPerfectPlus).len() != full_combo_text(FullComboKind::FullCombo).len());
    assert(full_combo_text(FullComboKind::AllPerfectPlus)[0] != full_combo_text(FullComboKind::FullComboPlus)[0]);
    assert(full_combo_text(FullComboKind::AllPerfectPlus).len() != full_combo_text(FullComboKind::AllPerfect).len());
}

fn push_full_combo_text(s: &mut String, k: FullComboKind)
    ensures
        final(s)@ == old(s)@ + full_combo_text(k),
{
    match k {
        FullComboKind::Nothing => {},
        FullComboKind::FullCombo => push_str(s, "FC"),
        FullComboKind::FullComboPlus => push_str(s, "FC+"),
        FullComboKind::AllPerfect => push_str(s, "AP"),
        FullComboKind::AllPerfectPlus => push_str(s, "AP+"),
    }
    assert(s@ =~= old(s)@ + full_combo_text(k));
}

/// The level as the message shows it: "?" when unknown.
pub open spec fn level_text(level: Option<KnownLevel>) -> Seq<char> {
    match level {
        None => "?"@,
        Some(KnownLevel::Constant(c)) => dec((c.value() / 10) as nat) + seq!['.'] + dec(
            (c.value() % 10) as nat,
        ),
        Some(KnownLevel::Level(l)) => dec(l.level as nat) + (if l.plus {
            seq!['+']
        } else {
            Seq::empty()
        }),
    }
}

/// The single-song rating in hundredths, when the constant is known.
pub open spec fn rating_hundredths(level: Option<KnownLevel>, a: AchievementValue) -> Option<
    int,
> {
    match level {
        Some(KnownLevel::Constant(c)) => Some(
            rating_precise_spec(c.value(), a.spec_get(), rank_coef_spec(a.spec_get())) / 1_000_000,
        ),
        _ => None,
    }
}

/// The single-song rating as the message shows it, e.g. "312.48".
pub open spec fn rating_text(level: Option<KnownLevel>, a: AchievementValue) -> Seq<char> {
    match rating_hundredths(level, a) {
        Some(x) => dec((x / 100) as nat) + seq!['.'] + dec_padded((x % 100) as nat, 2),
        None => Seq::empty(),
    }
}

/// The achievement as shown, e.g. "100.5000%".
pub open spec fn achievement_text(a: AchievementValue) -> Seq<char> {
    dec((a.spec_get() / 10000) as nat) + seq!['.'] + dec_padded((a.spec_get() % 10000) as nat, 4)
        + seq!['%']
}

/// The frame colour of each rating bracket: rainbow from 15000, platinum
/// from 14500, gold from 14000, silver from 13000, bronze from 12000,
/// purple from 10000, red from 7000, orange from 4000, green from 2000,
/// blue from 1000, and normal below.
pub proof fn lemma_color_of_rating_brackets(v: u16)
    ensures
        v >= 15000 ==> color_of_rating(v) == RatingBorderColor::Rainbow,
        14500 <= v < 15000 ==> color_of_rating(v) == RatingBorderColor::Platinum,
        14000 <= v < 14500 ==> color_of_rating(v) == RatingBorderColor::Gold,
        13000 <= v < 14000 ==> color_of_rating(v) == RatingBorderColor::Silver,
        12000 <= v < 13000 ==> color_of_rating(v) == RatingBorderColor::Bronze,
        10000 <= v < 12000 ==> color_of_rating(v) == RatingBorderColor::Purple,
        7000 <= v < 10000 ==> color_of_rating(v) == RatingBorderColor::Red,
        4000 <= v < 7000 ==> color_of_rating(v) == RatingBorderColor::Orange,
        2000 <= v < 4000 ==> color_of_rating(v) == RatingBorderColor::Green,
        1000 <= v < 2000 ==> color_of_rating(v) == RatingBorderColor::Blue,
        v < 1000 ==> color_of_rating(v) == RatingBorderColor::Normal,
{
}

/// The frame colour that belongs to a rating.
pub open spec fn color_of_rating(v: u16) -> RatingBorderColor {
    if v >= 15000 {
        RatingBorderColor::Rainbow
    } else if v >= 14500 {
        RatingBorderColor::Platinum
    } else if v >= 14000 {
        RatingBorderColor::Gold
    } else if v >= 13000 {
        RatingBorderColor::Silver
    } else if v >= 12000 {
        RatingBorderColor::Bronze
    } else if v >= 10000 {
        RatingBorderColor::Purple
    } else if v >= 7000 {
        RatingBorderColor::Red
    } else if v >= 4000 {
        RatingBorderColor::Orange
    } else if v >= 2000 {
        RatingBorderColor::Green
    } else if v >= 1000 {
        RatingBorderColor::Blue
    } else {
        RatingBorderColor::Normal
    }
}

/// The frame colour that belongs to a rating.
pub fn rating_color(v: u16) -> (r: RatingBorderColor)
    ensures
        r == color_of_rating(v),
{
    if v >= 15000 {
        RatingBorderColor::Rainbow
    } else if v >= 14500 {
        RatingBorderColor::Platinum
    } else if v >= 14000 {
        RatingBorderColor::Gold
    } else if v >= 13000 {
        RatingBorderColor::Silver
    } else if v >= 12000 {
        RatingBorderColor::Bronze
    } else if v >= 10000 {
        RatingBorderColor::Purple
    } else if v >= 7000 {
        RatingBorderColor::Red
    } else if v >= 4000 {
        RatingBorderColor::Orange
    } else if v >= 2000 {
        RatingBorderColor::Green
    } else if v >= 1000 {
        RatingBorderColor::Blue
    } else {
        RatingBorderColor::Normal
    }
}

pub open spec fn color_name(c: RatingBorderColor) -> Seq<char> {
    match c {
        RatingBorderColor::Normal => "Normal"@,
        RatingBorderColor::Blue => "Blue"@,
        RatingBorderColor::Green => "Green"@,
        RatingBorderColor::Orange => "Orange"@,
        RatingBorderColor::Red => "Red"@,
        RatingBorderColor::Purple => "Purple"@,
        RatingBorderColor::Bronze => "Bronze"@,
        RatingBorderColor::Silver => "Silver"@,
        RatingBorderColor::Gold => "Gold"@,
        RatingBorderColor::Platinum => "Platinum"@,
        RatingBorderColor::Rainbow => "Rainbow"@,
    }
}

/// Each border color is written as its own text, and different values are
/// written differently, so the text names the value.
pub proof fn lemma_color_name_texts()
    ensures
        color_name(RatingBorderColor::Normal) == seq!['N', 'o', 'r', 'm', 'a', 'l'],
        color_name(RatingBorderColor::Blue) == seq!['B', 'l', 'u', 'e'],
        color_name(RatingBorderColor::Green) == seq!['G', 'r', 'e', 'e', 'n'],
        color_name(RatingBorderColor::Orange) == seq!['O', 'r', 'a', 'n', 'g', 'e'],
        color_name(RatingBorderColor::Red) == seq!['R', 'e', 'd'],
        color_name(RatingBorderColor::Purple) == seq!['P', 'u', 'r', 'p', 'l', 'e'],
        color_name(RatingBorderColor::Bronze) == seq!['B', 'r', 'o', 'n', 'z', 'e'],
        color_name(RatingBorderColor::Silver) == seq!['S', 'i', 'l', 'v', 'e', 'r'],
        color_name(RatingBorderColor::Gold) == seq!['G', 'o', 'l', 'd'],
        color_name(RatingBorderColor::Platinum) == seq!['P', 'l', 'a', 't', 'i', 'n', 'u', 'm'],
        color_name(RatingBorderColor::Rainbow) == seq!['R', 'a', 'i', 'n', 'b', 'o', 'w'],
        forall|a: RatingBorderColor, b: RatingBorderColor| #[trigger] color_name(a) == #[trigger] color_name(b) ==> a == b,
{
    reveal_strlit("Normal");
    reveal_strlit("Blue");
    reveal_strlit("Green");
    reveal_strlit("Orange");
    reveal_strlit("Red");
    reveal_strlit("Purple");
    reveal_strlit("Bronze");
    reveal_strlit("Silver");
    reveal_strlit("Gold");
    reveal_strlit("Platinum");
    reveal_strlit("Rainbow");
    assert(color_name(RatingBorderColor::Normal) =~= seq!['N', 'o', 'r', 'm', 'a', 'l']);
    assert(color_name(RatingBorderColor::Blue) =~= seq!['B', 'l', 'u', 'e']);
    assert(color_name(RatingBorderColor::Green) =~= seq!['G', 'r', 'e', 'e', 'n']);
    assert(color_name(RatingBorderColor::Orange) =~= seq!['O', 'r', 'a', 'n', 'g', 'e']);
    assert(color_name(RatingBorderColor::Red) =~= seq!['R', 'e', 'd']);
    assert(color_name(RatingBorderColor::Purple) =~= seq!['P', 'u', 'r', 'p', 'l', 'e']);
    assert(color_name(RatingBorderColor::Bronze) =~= seq!['B', 'r', 'o', 'n', 'z', 'e']);
    assert(color_name(RatingBorderColor::Silver) =~= seq!['S', 'i', 'l', 'v', 'e', 'r']);
    assert(color_name(RatingBorderColor::Gold) =~= seq!['G', 'o', 'l', 'd']);
    assert(color_name(RatingBorderColor::Platinum) =~= seq!['P', 'l', 'a', 't', 'i', 'n', 'u', 'm']);
    assert(color_name(RatingBorderColor::Rainbow) =~= seq!['R', 'a', 'i', 'n', 'b', 'o', 'w']);
    assert(color_name(RatingBorderColor::Blue).len() != color_name(RatingBorderColor::Normal).len());
    assert(color_name(RatingBorderColor::Green).len() != color_name(RatingBorderColor::Normal).len());
    assert(color_name(RatingBorderColor::Green).len() != color_name(RatingBorderColor::Blue).len());
    assert(color_name(RatingBorderColor::Orange)[0] != color_name(RatingBorderColor::Normal)[0]);
    assert(color_name(RatingBorderColor::Orange).len() != color_name(RatingBorderColor::Blue).len());
    assert(color_name(RatingBorderColor::Orange).len() != color_name(RatingBorderColor::Green).len());
    assert(color_name(RatingBorderColor::Red).len() != color_name(RatingBorderColor::Normal).len());
    assert(color_name(RatingBorderColor::Red).len() != color_name(RatingBorderColor::Blue).len());
    assert(color_name(RatingBorderColor::Red).len() != color_name(RatingBorderColor::Green).len());
    assert(color_name(RatingBorderColor::Red).len() != color_name(RatingBorderColor::Orange).len());
    assert(color_name(RatingBorderColor::Purple)[0] != color_name(RatingBorderColor::Normal)[0]);
    assert(color_name(RatingBorderColor::Purple).len() != color_name(RatingBorderColor::Blue).len());
    assert(color_name(RatingBorderColor::Purple).len() != color_name(RatingBorderColor::Green).len());
    assert(color_name(RatingBorderColor::Purple)[0] != color_name(RatingBorderColor::Orange)[0]);
    assert(color_name(RatingBorderColor::Purple).len() != color_name(RatingBorderColor::Red).len());
    assert(color_name(RatingBorderColor::Bronze)[0] != color_name(RatingBorderColor::Normal)[0]);
    assert(color_name(RatingBorderColor::Bronze).len() != color_name(RatingBorderColor::Blue).len());
    assert(color_name(RatingBorderColor::Bronze).len() != color_name(RatingBorderColor::Green).len());
    assert(color_name(RatingBorderColor::Bronze)[0] != color_name(RatingBorderColor::Orange)[0]);
    assert(color_name(RatingBorderColor::Bronze).len() != color_name(RatingBorderColor::Red).len());
    assert(color_name(RatingBorderColor::Bronze)[0] != color_name(RatingBorderColor::Purple)[0]);
    assert(color_name(RatingBorderColor::Silver)[0] != color_name(RatingBorderColor::Normal)[0]);
    assert(color_name(RatingBorderColor::Silver).len() != color_name(RatingBorderColor::Blue).len());
    assert(color_name(RatingBorderColor::Silver).len() != color_name(RatingBorderColor::Green).len());
    assert(color_name(RatingBorderColor::Silver)[0] != color_name(RatingBorderColor::Orange)[0]);
    assert(color_name(RatingBorderColor::Silver).len() != color_name(RatingBorderColor::Red).len());
    assert(color_name(RatingBorderColor::Silver)[0] != color_name(RatingBorderColor::Purple)[0]);
    assert(color_name(RatingBorderColor::Silver)[0] != color_name(RatingBorderColor::Bronze)[0]);
    assert(color_name(RatingBorderColor::Gold).len() != color_name(RatingBorderColor::Normal).len());
    assert(color_name(RatingBorderColor::Gold)[0] != color_name(RatingBorderColor::Blue)[0]);
    assert(color_name(RatingBorderColor::Gold).len() != color_name(RatingBorderColor::Green).len());
    assert(color_name(RatingBorderColor::Gold).len() != color_name(RatingBorderColor::Orange).len());
    assert(color_name(RatingBorderColor::Gold).len() != color_name(RatingBorderColor::Red).len());
    assert(color_name(RatingBorderColor::Gold).len() != color_name(RatingBorderColor::Purple).len());
    assert(color_name(RatingBorderColor::Gold).len() != color_name(RatingBorderColor::Bronze).len());
    assert(color_name(RatingBorderColor::Gold).len() != color_name(RatingBorderColor::Silver).len());
    assert(color_name(RatingBorderColor::Platinum).len() != color_name(RatingBorderColor::Normal).len());
    assert(color_name(RatingBorderColor::Platinum).len() != color_name(RatingBorderColor::Blue).len());
    assert(color_name(RatingBorderColor::Platinum).len() != color_name(RatingBorderColor::Green).len());
    assert(color_name(RatingBorderColor::Platinum).len() != color_name(RatingBorderColor::Orange).len());
    assert(color_name(RatingBorderColor::Platinum).len() != color_name(RatingBorderColor::Red).len());
    assert(color_name(RatingBorderColor::Platinum).len() != color_name(RatingBorderColor::Purple).len());
    assert(color_name(RatingBorderColor::Platinum).len() != color_name(RatingBorderColor::Bronze).len());
    assert(color_name(RatingBorderColor::Platinum).len() != color_name(RatingBorderColor::Silver).len());
    assert(color_name(RatingBorderColor::Platinum).len() != color_name(RatingBorderColor::Gold).len());
    assert(color_name(RatingBorderColor::Rainbow).len() != color_name(RatingBorderColor::Normal).len());
    assert(color_name(RatingBorderColor::Rainbow).len() != color_name(RatingBorderColor::Blue).len());
    assert(color_name(RatingBorderColor::Rainbow).len() != color_name(RatingBorderColor::Green).len());
    assert(color_name(RatingBorderColor::Rainbow).len() != color_name(RatingBorderColor::Orange).len());
    assert(color_name(RatingBorderColor::Rainbow).len() != color_name(RatingBorderColor::Red).len());
    assert(color_name(RatingBorderColor::Rainbow).len() != color_name(RatingBorderColor::Purple).len());
    assert(color_name(RatingBorderColor::Rainbow).len() != color_name(RatingBorderColor::Bronze).len());
    assert(color_name(RatingBorderColor::Rainbow).len() != color_name(RatingBorderColor::Silver).len());
    assert(color_name(RatingBorderColor::Rainbow).len() != color_name(RatingBorderColor::Gold).len());
    assert(color_name(RatingBorderColor::Rainbow).len() != color_name(RatingBorderColor::Platinum).len());
}

fn push_color_name(s: &mut String, c: RatingBorderColor)
    ensures
        final(s)@ == old(s)@ + color_name(c),
{
    let t = match c {
        RatingBorderColor::Normal => "Normal",
        RatingBorderColor::Blue => "Blue",
        RatingBorderColor::Green => "Green",
        RatingBorderColor::Orange => "Orange",
        RatingBorderColor::Red => "Red",
        RatingBorderColor::Purple => "Purple",
        RatingBorderColor::Bronze => "Bronze",
        RatingBorderColor::Silver => "Silver",
        RatingBorderColor::Gold => "Gold",
        RatingBorderColor::Platinum => "Platinum",
        RatingBorderColor::Rainbow => "Rainbow",
    };
    push_str(s, t);
}

/// The rating before the play: the rating after it less the change, both
/// taken as 16-bit signed numbers.
pub open spec fn old_rating(r: RatingResult) -> u16 {
    ((r.rating.spec_get() as i16) - r.delta) as u16
}

/// The rating after the play can be taken back by the change without
/// leaving the 16-bit signed range.
pub open spec fn rating_line_defined(r: RatingResult) -> bool {
    r.delta > 0 ==> (r.rating.spec_get() as i16) - r.delta >= i16::MIN
}

/// The rating line, when the rating went up, e.g.
/// "Rating: 14990 => 15002 (+12)　Color changed to Rainbow!".
pub open spec fn rating_line_text(r: RatingResult) -> Seq<char> {
    if r.delta > 0 {
        let old = old_rating(r);
        "Rating: "@ + dec(old as nat) + " => "@ + dec(r.rating.spec_get() as nat) + " (+"@ + dec(
            r.delta as nat,
        ) + seq![')'] + (if color_of_rating(old) != r.border_color {
            "　Color changed to "@ + color_name(r.border_color) + seq!['!']
        } else {
            Seq::empty()
        }) + seq!['\n']
    } else {
        Seq::empty()
    }
}

/// The life line of perfect challenges and courses, e.g.
/// "Course life: 812/1000".
pub open spec fn life_line_text(l: LifeResult) -> Seq<char> {
    match l {
        LifeResult::Nothing => Seq::empty(),
        LifeResult::PerfectChallengeResult(v) => "Perfect challenge"@ + " life: "@ + dec(
            v.value_spec() as nat,
        ) + seq!['/'] + dec(v.max_spec() as nat) + seq!['\n'],
        LifeResult::CourseResult(v) => "Course"@ + " life: "@ + dec(v.value_spec() as nat) + seq![
            '/',
        ] + dec(v.max_spec() as nat) + seq!['\n'],
    }
}

/// The first part of the message: the time stamp, the title and the chart,
/// e.g. "2023-09-14 01:55:00　Song (DX Mas Lv.13.7)　".
pub open spec fn title_part_text(time: Seq<char>, record: PlayRecord, level: Option<KnownLevel>) -> Seq<char> {
    time + seq!['　'] + record.song_metadata.name.0@ + " ("@ + score_kind_text(record.score_metadata)
        + " Lv."@ + level_text(level) + (if record.utage_metadata is Some {
        "?"@
    } else {
        Seq::empty()
    }) + ")　"@
}

/// The rest of the first line: rank, achievement, rating and combo, e.g.
/// "SSS+(100.5000% :new:) 309.55　AP (TG2 for AP+)".
pub open spec fn result_part_text(record: PlayRecord, level: Option<KnownLevel>) -> Seq<char> {
    let a = record.achievement_result;
    rank_text(a.rank) + seq!['('] + achievement_text(a.value) + (if a.new_record {
        " :new:"@
    } else {
        Seq::empty()
    }) + seq![')', ' '] + rating_text(level, a.value) + seq!['　'] + full_combo_text(
        record.combo_result.full_combo_kind,
    ) + barely_fc_part_text(record.judge_result, record.combo_result.combo.max_spec()) + seq![
        '\n',
    ]
}

/// The near-miss note in brackets, if there is one.
pub open spec fn barely_fc_part_text(judge: JudgeResult, max_combo: u32) -> Seq<char> {
    match barely_fc_spec(judge, max_combo) {
        Some(x) => " ("@ + x + seq![')'],
        None => Seq::empty(),
    }
}

fn push_barely_fc_part(s: &mut String, judge: JudgeResult, max_combo: u32)
    requires
        total_judgements(judge) <= u32::MAX,
    ensures
        final(s)@ == old(s)@ + barely_fc_part_text(judge, max_combo),
{
    match make_barely_fc(judge, max_combo) {
        Some(x) => {
            push_str(s, " (");
            push_str(s, x.as_str());
            push_char(s, ')');
        },
        None => {},
    }
    assert(s@ =~= old(s)@ + barely_fc_part_text(judge, max_combo));
}

/// The message posted for a play, after the time stamp.
pub open spec fn message_text(time: Seq<char>, record: PlayRecord, level: Option<KnownLevel>) -> Seq<
    char,
> {
    title_part_text(time, record, level) + result_part_text(record, level) + rating_line_text(
        record.rating_result,
    ) + life_line_text(record.life_result)
}

/// What `make_message` needs to hold of a record.
pub open spec fn message_defined(record: PlayRecord) -> bool {
    &&& total_judgements(record.judge_result) <= u32::MAX
    &&& rating_line_defined(record.rating_result)
    &&& record.played_at.idx.timestamp_value() matches Some(t) ==> t <= i64::MAX
        - JST_OFFSET_SECONDS
}

#[verifier::rlimit(40)]
fn push_title_part(s: &mut String, time: &str, record: &PlayRecord, level: Option<KnownLevel>)
    ensures
        final(s)@ == old(s)@ + title_part_text(time@, *record, level),
{
    push_str(s, time);
    push_char(s, '　');
    push_str(s, record.song_metadata.name.0.as_str());
    push_str(s, " (");
    let kind = describe_score_kind(record.score_metadata);
    push_str(s, kind.as_str());
    push_str(s, " Lv.");
    match level {
        None => push_str(s, "?"),
        Some(KnownLevel::Constant(c)) => {
            let t = c.to_string();
            push_str(s, t.as_str());
        },
        Some(KnownLevel::Level(l)) => {
            let t = l.to_string();
            push_str(s, t.as_str());
        },
    }
    if record.utage_metadata.is_some() {
        push_str(s, "?");
    }
    push_str(s, ")　");
    assert(s@ =~= old(s)@ + title_part_text(time@, *record, level));
}

fn push_rating_value(s: &mut String, level: Option<KnownLevel>, a: AchievementValue)
    ensures
        final(s)@ == old(s)@ + rating_text(level, a),
{
    match level {
        Some(KnownLevel::Constant(c)) => {
            let _ = c.get();
            proof {
                lemma_rating_precise_bound(c.value(), a.spec_get());
            }
            let x = single_song_rating_precise(c, a, rank_coef(a)) / 1_000_000;
            push_decimal(s, x / 100);
            push_char(s, '.');
            push_decimal_padded(s, x % 100, 2);
        },
        _ => {},
    }
    assert(s@ =~= old(s)@ + rating_text(level, a));
}

fn push_result_part(s: &mut String, record: &PlayRecord, level: Option<KnownLevel>)
    requires
        total_judgements(record.judge_result) <= u32::MAX,
    ensures
        final(s)@ == old(s)@ + result_part_text(*record, level),
{
    let a = record.achievement_result;
    push_rank_text(s, a.rank);
    push_char(s, '(');
    let ach = a.value.to_string();
    push_str(s, ach.as_str());
    if a.new_record {
        push_str(s, " :new:");
    }
    push_char(s, ')');
    push_char(s, ' ');
    push_rating_value(s, level, a.value);
    push_char(s, '　');
    push_full_combo_text(s, record.combo_result.full_combo_kind);
    push_barely_fc_part(s, record.judge_result, record.combo_result.combo.max());
    push_char(s, '\n');
    assert(s@ =~= old(s)@ + result_part_text(*record, level));
}

fn push_rating_line(s: &mut String, r: RatingResult)
    requires
        rating_line_defined(r),
    ensures
        final(s)@ == old(s)@ + rating_line_text(r),
{
    if r.delta > 0 {
        let new = r.rating.get();
        let old = ((new as i16) - r.delta) as u16;
        push_str(s, "Rating: ");
        push_decimal(s, old as u64);
        push_str(s, " => ");
        push_decimal(s, new as u64);
        push_str(s, " (+");
        push_decimal(s, r.delta as u64);
        push_char(s, ')');
        if rating_color(old) != r.border_color {
            push_str(s, "　Color changed to ");
            push_color_name(s, r.border_color);
            push_char(s, '!');
        }
        push_char(s, '\n');
    }
    assert(s@ =~= old(s)@ + rating_line_text(r));
}

fn push_life_line(s: &mut String, l: LifeResult)
    ensures
        final(s)@ == old(s)@ + life_line_text(l),
{
    match l {
        LifeResult::Nothing => {},
        LifeResult::PerfectChallengeResult(v) => {
            push_str(s, "Perfect challenge");
            push_str(s, " life: ");
            push_decimal(s, v.value() as u64);
            push_char(s, '/');
            push_decimal(s, v.max() as u64);
            push_char(s, '\n');
        },
        LifeResult::CourseResult(v) => {
            push_str(s, "Course");
            push_str(s, " life: ");
            push_decimal(s, v.value() as u64);
            push_char(s, '/');
            push_decimal(s, v.max() as u64);
            push_char(s, '\n');
        },
    }
    assert(s@ =~= old(s)@ + life_line_text(l));
}

/// The message posted for a play, from the text of its time stamp.
pub fn compose_message(time: &str, record: &PlayRecord, level: Option<KnownLevel>) -> (r: String)
    requires
        message_defined(*record),
    ensures
        r@ == message_text(time@, *record, level),
{
    let mut s = String::new();
    push_title_part(&mut s, time, record, level);
    push_result_part(&mut s, record, level);
    push_rating_line(&mut s, record.rating_result);
    push_life_line(&mut s, record.life_result);
    assert(s@ =~= message_text(time@, *record, level));
    s
}

/// The time a message gives for a play: the time stamp of the record index
/// in Japan time when there is one, else the time on the record page.
pub open spec fn message_time(record: PlayRecord) -> int {
    match record.played_at.idx.timestamp_value() {
        Some(t) => t + JST_OFFSET_SECONDS,
        None => record.played_at.time.seconds() as int,
    }
}

/// The message posted for a play.
pub fn make_message(record: &PlayRecord, level: Option<KnownLevel>) -> (r: String)
    requires
        message_defined(*record),
    ensures
        r@ == message_text(time_stamp_text(message_time(*record) as i64), *record, level),
{
    let time = match record.played_at.idx.timestamp_jst() {
        Some(t) => t,
        None => record.played_at.time,
    };
    let text = time.to_string();
    compose_message(text.as_str(), record, level)
}

/// The level a message shows for a play tied to a chart: for an ordinary
/// chart with a known level, its constant when one candidate is left, else
/// its displayed level as of the latest version; for an utage chart, its
/// displayed level; nothing when the chart or its level is not known.
pub fn known_level(p: &AssociatedPlayRecord) -> (r: Option<KnownLevel>)
    ensures
        match p.score_spec() {
            Err(_) => r is None,
            Ok(ScoreForVersionRef::Utage(u)) => r == Some(KnownLevel::Level(u.score_spec().level)),
            Ok(ScoreForVersionRef::Ordinary(o)) => match o.level {
                None => r is None,
                Some(l) => if l.candidate_list().len() == 1 {
                    r matches Some(KnownLevel::Constant(c)) && c.value() == l.candidate_list()[0]
                } else {
                    r == Some(
                        KnownLevel::Level(
                            to_lv_spec(l.offset_value(), is_buddies_plus_or_later(MaimaiVersion::Prism)),
                        ),
                    )
                },
            },
        },
{
    match p.score() {
        Err(_) => None,
        Ok(ScoreForVersionRef::Utage(u)) => Some(KnownLevel::Level(u.score().level())),
        Ok(ScoreForVersionRef::Ordinary(o)) => match o.level {
            None => None,
            Some(l) => match l.get_if_unique() {
                Some(c) => Some(KnownLevel::Constant(c)),
                None => Some(KnownLevel::Level(l.into_level(MaimaiVersion::latest()))),
            },
        },
    }
}

/// The number of judgements of the chart, critical perfects excluded.
pub fn total_judgement_count(judge: JudgeResult) -> (r: u64)
    ensures
        r == total_judgements(judge),
{
    let e = entries(judge, true, true);
    let mut sum: u64 = 0;
    let mut i: usize = 0;
    proof {
        assert(e@.len() <= 5);
    }
    while i < e.len()
        invariant
            0 <= i <= e@.len(),
            e@.len() <= 5,
            sum == report_sum(e@.subrange(0, i as int), JudgeColumn::Miss) + report_sum(
                e@.subrange(0, i as int),
                JudgeColumn::Good,
            ) + report_sum(e@.subrange(0, i as int), JudgeColumn::Great) + report_sum(
                e@.subrange(0, i as int),
                JudgeColumn::Perfect,
            ),
            sum <= i * 4 * (u32::MAX as int),
        decreases e@.len() - i,
    {
        let x = e[i].1;
        proof {
            let p = e@.subrange(0, i + 1);
            assert(p.drop_last() =~= e@.subrange(0, i as int));
            assert(p.last() == e@[i as int]);
        }
        sum = sum + x.miss as u64 + x.good as u64 + x.great as u64 + x.perfect as u64;
        i = i + 1;
    }
    assert(e@.subrange(0, i as int) =~= e@);
    sum
}

/// Whether `make_message` can describe the record.
pub fn message_defined_check(record: &PlayRecord) -> (r: bool)
    ensures
        r == message_defined(*record),
{
    let total = total_judgement_count(record.judge_result);
    if total > u32::MAX as u64 {
        return false;
    }
    let rr = record.rating_result;
    if rr.delta > 0 {
        let n: i16 = rr.rating.get() as i16;
        if (n as i32) - (rr.delta as i32) < i16::MIN as i32 {
            return false;
        }
    }
    match record.played_at.idx.timestamp() {
        Some(t) => t <= i64::MAX - JST_OFFSET_SECONDS,
        None => true,
    }
}

} // verus!
