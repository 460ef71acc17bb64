use std::collections::BTreeSet;

use maimai_scraping::maimai::rating::{
    rank_coef, single_song_rating, single_song_rating_precise, CandidateBitmask,
    InternalScoreLevel, RankCoefficient, ScoreConstant, ScoreLevel,
};
use maimai_scraping::maimai::schema::latest::AchievementValue;
use maimai_scraping::maimai::version::MaimaiVersion;

fn sc(v: u8) -> ScoreConstant {
    ScoreConstant::try_from_u8(v).unwrap()
}

fn isl(offset: u8, mask: u16) -> InternalScoreLevel {
    InternalScoreLevel::from_parts(sc(offset), CandidateBitmask::new(mask)).unwrap()
}

fn lv(s: &str) -> ScoreLevel {
    ScoreLevel::from_str(s).unwrap()
}

#[test]
fn test_song_level_range_inclusive() {
    let levels = ScoreLevel::range_inclusive(lv("1"), lv("15"));
    // 1-15 + 7-14 = 15 + 8 = 23
    assert!(levels.len() == 23);
    // All element are different, elements are sorted
    let set = BTreeSet::from_iter(levels.iter().copied())
        .into_iter()
        .collect::<Vec<_>>();
    assert!(levels == set);
}

#[test]
fn rating_test_candidate_bitmask() {
    let x = CandidateBitmask::new(0b0100_1011);
    assert!(x.has(0));
    assert!(!x.has(2));
    assert!(x.has(6));
    assert!(!x.has(7));
    assert!(!x.has(15));
    assert!(!x.has(16));
    assert!(!x.has(255));
    assert!(x.bits() == [0, 1, 3, 6])
}

#[test]
fn load_score_level_test_candidate_bitmask() {
    let x = CandidateBitmask::new(0b0100_1011);
    assert!(x.has(0));
    assert!(!x.has(2));
    assert!(x.has(6));
    assert!(!x.has(7));
    assert!(!x.has(15));
    assert!(!x.has(16));
    assert!(!x.has(255));
    assert!(x.bits() == [0, 1, 3, 6])
}

#[test]
#[allow(clippy::unusual_byte_groupings)]
fn test_intersection() {
    let x = isl(130, 0b_110_100);
    let y = isl(130, 0b_101_110);
    let z = isl(132, 0b_100_1);
    assert_eq!(x.intersection(y), z);

    let x = isl(50, 0b_110_100);
    let y = isl(130, 0b_101_110);
    let z = InternalScoreLevel::empty();
    assert_eq!(x.intersection(y), z);
}

/// A small deterministic generator standing in for a random one.
struct Lcg(u64);
impl Lcg {
    fn gen_range(&mut self, lo: u32, hi_exclusive: u32) -> u32 {
        self.0 = self.0.wrapping_mul(6364136223846793005).wrapping_add(1442695040888963407);
        lo + ((self.0 >> 33) as u32) % (hi_exclusive - lo)
    }
}

#[test]
fn test_intersection_stress() {
    let mut rng = Lcg(12345);
    let mut gen = |bias: u32| {
        let offset = rng.gen_range(10, 151);
        let max = (150 - offset + 1).min(bias);
        let mask = rng.gen_range(0, 1 << max);
        isl(offset as u8, mask as u16)
    };
    for _ in 0..20_000 {
        for a in [1, 5, 10] {
            for b in [1, 5, 10] {
                let x = gen(a);
                let y = gen(b);
                let [xs, ys] = [x, y].map(|x| x.candidates().iter().map(|c| c.get()).collect::<BTreeSet<_>>());
                let mut expected = xs.intersection(&ys).peekable();
                let z = match expected.peek() {
                    None => InternalScoreLevel::empty(),
                    Some(&&offset) => {
                        let mut mask = 0u16;
                        for lv in expected {
                            mask |= 1u16.checked_shl((lv - offset) as u32).unwrap();
                        }
                        isl(offset, mask)
                    }
                };
                assert_eq!(x.intersection(y), z, "While merging {x:?} and {y:?}");
            }
        }
    }
}

#[test]
#[allow(clippy::unusual_byte_groupings)]
fn test_in_lv_mask() {
    let x = isl(130, 0b_110_100);
    assert_eq!(
        x.in_lv_mask(MaimaiVersion::Buddies),
        CandidateBitmask::new(0b_110_100)
    );

    let x = isl(56, 0b_1011);
    assert_eq!(
        x.in_lv_mask(MaimaiVersion::Buddies),
        CandidateBitmask::new(0b_1011_000_000)
    );
}

#[test]
#[allow(clippy::unusual_byte_groupings)]
fn test_in_lv_display() {
    let x = isl(130, 0b_110_100);
    assert_eq!(x.to_string(), "13.2,4-5");

    let x = isl(60, 0b_111_111);
    assert_eq!(x.to_string(), "6.0-5");

    let x = isl(60, 0b_100_000);
    assert_eq!(x.to_string(), "6.5");

    let x = isl(60, 0b_010_101);
    assert_eq!(x.to_string(), "6.0,2,4");
}

#[test]
fn rank_coef_table() {
    let a = |v| AchievementValue::try_from_u32(v).unwrap();
    assert_eq!(rank_coef(a(100_5000)), RankCoefficient(224));
    assert_eq!(rank_coef(a(100_4999)), RankCoefficient(222));
    assert_eq!(rank_coef(a(99_9999)), RankCoefficient(214));
    assert_eq!(rank_coef(a(96_9999)), RankCoefficient(176));
    assert_eq!(rank_coef(a(9_9999)), RankCoefficient(0));
    assert_eq!(RankCoefficient(224).to_string(), "22.4");
}

#[test]
fn single_song_rating_values() {
    let a = AchievementValue::try_from_u32(101_0000).unwrap();
    let c = sc(140);
    // 14.0 * 100.5 * 22.4 = 315.168
    assert_eq!(single_song_rating_precise(c, a, rank_coef(a)), 140 * 100_5000 * 224);
    assert_eq!(single_song_rating(c, a, rank_coef(a)).get(), 315);
}

#[test]
fn score_level_parsing_and_candidates() {
    assert_eq!(lv("13+"), ScoreLevel { level: 13, plus: true });
    assert!(ScoreLevel::from_str("6+").is_err());
    assert!(ScoreLevel::from_str("0").is_err());
    assert!(ScoreLevel::from_str("abc").is_err());
    assert_eq!(lv("13+").to_string(), "13+");
    let c: Vec<u8> = lv("13+").score_constant_candidates_aware(false).iter().map(|c| c.get()).collect();
    assert_eq!(c, vec![137, 138, 139]);
    let c: Vec<u8> = lv("13+").score_constant_candidates().iter().map(|c| c.get()).collect();
    assert_eq!(c, vec![136, 137, 138, 139]);
    assert_eq!(sc(136).to_lv(MaimaiVersion::Buddies), ScoreLevel { level: 13, plus: false });
    assert_eq!(sc(136).to_lv(MaimaiVersion::BuddiesPlus), ScoreLevel { level: 13, plus: true });
    assert_eq!(sc(132).to_string(), "13.2");
    assert_eq!(ScoreConstant::candidates().len(), 141);
}

#[test]
fn internal_level_operations() {
    let u = InternalScoreLevel::unknown(MaimaiVersion::Prism, lv("13+"));
    let c: Vec<u8> = u.candidates().iter().map(|c| c.get()).collect();
    assert_eq!(c, vec![136, 137, 138, 139]);
    assert_eq!(u.count_candidates(), 4);
    assert!(!u.is_unique());
    let k = InternalScoreLevel::known(sc(137));
    assert_eq!(k.get_if_unique(), Some(sc(137)));
    assert_eq!(u.intersection(k), k);
    let n = InternalScoreLevel::new(MaimaiVersion::Prism, lv("13+"), CandidateBitmask::new(0b1010)).unwrap();
    let c: Vec<u8> = n.candidates().iter().map(|c| c.get()).collect();
    assert_eq!(c, vec![137, 139]);
    assert!(n.contains(sc(139)));
    assert!(!n.contains(sc(138)));
    let mut r = u;
    r.retain(|c| c.get() % 2 == 0);
    let c: Vec<u8> = r.candidates().iter().map(|c| c.get()).collect();
    assert_eq!(c, vec![136, 138]);
    assert_eq!(InternalScoreLevel::empty().to_string(), "empty");
    assert!(InternalScoreLevel::empty().is_empty());
    assert_eq!(isl(130, 0b100).canonicaliize(), isl(132, 1));
}

#[test]
fn rating_grows_with_achievement_and_constant() {
    let a = |v: u32| AchievementValue::try_from_u32(v).unwrap();
    let k = RankCoefficient(224);
    let low = single_song_rating_precise(sc(130), a(1000000), k);
    assert!(low <= single_song_rating_precise(sc(130), a(1004000), k));
    assert!(low <= single_song_rating_precise(sc(131), a(1000000), k));
    // From 100.5000% on, the rating stays the same.
    assert_eq!(
        single_song_rating_precise(sc(130), a(1005000), k),
        single_song_rating_precise(sc(130), a(1010000), k)
    );
    assert_eq!(single_song_rating_precise(sc(130), a(1005000), k), 130 * 1005000 * 224);
}

#[test]
fn canonical_form_keeps_the_candidate_list() {
    let x = isl(120, 0b0110_1000);
    let c = x.canonicaliize();
    assert_eq!(c.candidates(), x.candidates());
    assert_eq!(c.candidates(), vec![sc(123), sc(125), sc(126)]);
    assert_eq!(c.offset(), sc(123));
    // Applied again, nothing changes.
    assert_eq!(c.canonicaliize(), c);
    assert_eq!(isl(130, 0).canonicaliize(), InternalScoreLevel::empty());
}

#[test]
fn unknown_lists_the_level_constants_in_order() {
    for (version, bp) in [(MaimaiVersion::Buddies, false), (MaimaiVersion::BuddiesPlus, true)] {
        for level in [lv("5"), lv("12"), lv("12+"), lv("15")] {
            let u = InternalScoreLevel::unknown(version, level);
            assert_eq!(u.candidates(), level.score_constant_candidates_aware(bp));
        }
    }
    assert_eq!(InternalScoreLevel::unknown(MaimaiVersion::BuddiesPlus, lv("13")).count_candidates(), 6);
    assert_eq!(InternalScoreLevel::unknown(MaimaiVersion::Buddies, lv("13")).count_candidates(), 7);
    assert_eq!(InternalScoreLevel::unknown(MaimaiVersion::Buddies, lv("13+")).count_candidates(), 3);
    assert_eq!(InternalScoreLevel::unknown(MaimaiVersion::BuddiesPlus, lv("3")).count_candidates(), 10);
}
