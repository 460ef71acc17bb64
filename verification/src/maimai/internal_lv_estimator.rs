use vstd::prelude::*;

use crate::maimai::rating::{
    constant_range, is_buddies_plus_or_later, lemma_constant_exists, lemma_candidates_empty,
    lemma_rating_precise_bound, rank_coef, rank_coef_spec, rating_precise_spec,
    single_song_rating, InternalScoreLevel, ScoreConstant, ScoreLevel,
};
use crate::maimai::schema::latest::{AchievementValue, PlayTime};
use crate::maimai::version::MaimaiVersion;

verus! {

/// A chart of the song database, by its position in the database's list of
/// the charts of the version under study.
#[derive(Clone, Copy, PartialEq, Eq, Structural, PartialOrd, Ord, Hash, Debug)]
pub struct ScoreKey(pub usize);

/// `(rating, key)` comes before `(rating2, key2)`: by rating, then by key.
pub open spec fn entry_le(a: (i16, usize), b: (i16, usize)) -> bool {
    a.0 < b.0 || (a.0 == b.0 && a.1 <= b.1)
}

/// The charts that count towards the rating, each with the rating it
/// contributes, as far as the rating changes of the records tell: at most
/// `max_count` charts (15 new songs, 35 old ones).
pub struct TopRatings {
    entries: Vec<(i16, usize)>,
    max_count: usize,
}

/// The lowest entry, by rating and then by key.
pub open spec fn lowest_entry(m: Map<usize, i16>) -> (i16, usize) {
    choose|p: (i16, usize)|
        m.contains_key(p.1) && m[p.1] == p.0 && forall|k: usize| #[trigger]
            m.contains_key(k) ==> entry_le(p, (m[k], k))
}

/// One change of rating by `delta` on the chart `key`: a chart already in
/// the list gains `delta`; a new chart enters with `delta`, or, when the list
/// is full, takes the place of the lowest entry with that entry's rating
/// plus `delta`. Gives the new list and the chart's new rating.
pub open spec fn top_step(m: Map<usize, i16>, max_count: nat, key: usize, delta: i16) -> (
    Map<usize, i16>,
    int,
) {
    if m.contains_key(key) {
        (m.insert(key, (m[key] + delta) as i16), m[key] + delta)
    } else if m.len() == max_count {
        let low = lowest_entry(m);
        (m.remove(low.1).insert(key, (low.0 + delta) as i16), low.0 + delta)
    } else {
        (m.insert(key, delta), delta as int)
    }
}

/// The step can be taken without leaving the 16-bit range.
pub open spec fn top_step_fits(m: Map<usize, i16>, max_count: nat, key: usize, delta: i16) -> bool {
    i16::MIN <= top_step(m, max_count, key, delta).1 <= i16::MAX
}

impl TopRatings {
    pub closed spec fn view(&self) -> Map<usize, i16> {
        Map::new(
            |k: usize| exists|i: int| 0 <= i < self.entries@.len() && self.entries@[i].1 == k,
            |k: usize|
                self.entries@[choose|i: int| 0 <= i < self.entries@.len() && self.entries@[i].1 == k].0,
        )
    }

    pub closed spec fn max_count_spec(&self) -> nat {
        self.max_count as nat
    }

    /// Keys are distinct, and there are at most `max_count` of them.
    pub closed spec fn wf(&self) -> bool {
        &&& self.entries@.len() <= self.max_count
        &&& forall|i: int, j: int|
            0 <= i < j < self.entries@.len() ==> self.entries@[i].1 != self.entries@[j].1
    }

    proof fn lemma_view(&self)
        requires
            self.wf(),
        ensures
            forall|i: int|
                0 <= i < self.entries@.len() ==> #[trigger] self.view().contains_key(
                    self.entries@[i].1,
                ) && self.view()[self.entries@[i].1] == self.entries@[i].0,
            forall|k: usize|
                #[trigger] self.view().contains_key(k) ==> exists|i: int|
                    0 <= i < self.entries@.len() && self.entries@[i].1 == k,
            self.view().len() == self.entries@.len(),
            self.view().dom().finite(),
    {
        let m = self.view();
        assert forall|i: int| 0 <= i < self.entries@.len() implies #[trigger] m.contains_key(
            self.entries@[i].1,
        ) && m[self.entries@[i].1] == self.entries@[i].0 by {
            let k = self.entries@[i].1;
            let j = choose|j: int| 0 <= j < self.entries@.len() && self.entries@[j].1 == k;
            if j != i {
                assert(self.entries@[j].1 != self.entries@[i].1);
            }
        }
        lemma_keys_len(self.entries@);
        let ks = self.entries@.map_values(|e: (i16, usize)| e.1);
        assert forall|k: usize| m.dom().contains(k) <==> ks.to_set().contains(k) by {
            if m.contains_key(k) {
                let i = choose|i: int| 0 <= i < self.entries@.len() && self.entries@[i].1 == k;
                assert(ks[i] == k);
            }
            if ks.to_set().contains(k) {
                assert(ks.contains(k));
                let i = choose|i: int| 0 <= i < ks.len() && ks[i] == k;
                assert(self.entries@[i].1 == k);
            }
        }
        assert(m.dom() =~= ks.to_set());
    }

    /// The list never holds more than `max_count` charts.
    pub proof fn lemma_bounded(&self)
        requires
            self.wf(),
        ensures
            self.view().dom().finite(),
            self.view().len() <= self.max_count_spec(),
    {
        self.lemma_view();
    }

    /// An empty list for at most `max_count` charts.
    pub fn new(max_count: usize) -> (r: TopRatings)
        ensures
            r.wf(),
            r.view() == Map::<usize, i16>::empty(),
            r.max_count_spec() == max_count,
    {
        let r = TopRatings { entries: Vec::new(), max_count };
        assert(r.view() =~= Map::<usize, i16>::empty());
        r
    }

    /// Applies a rating change of `delta` on chart `key` (see `top_step`) and
    /// gives the chart's new rating.
    pub fn apply(&mut self, key: usize, delta: i16) -> (r: i16)
        requires
            old(self).wf(),
            old(self).max_count_spec() > 0,
            top_step_fits(old(self).view(), old(self).max_count_spec(), key, delta),
        ensures
            final(self).wf(),
            final(self).max_count_spec() == old(self).max_count_spec(),
            (final(self).view(), r as int) == top_step(
                old(self).view(),
                old(self).max_count_spec(),
                key,
                delta,
            ),
    {
        proof {
            self.lemma_view();
        }
        let ghost m = self.view();
        let n = self.entries.len();
        if let Some(i) = find_key(&self.entries, key) {
            let ghost before = self.entries@;
            assert(m.contains_key(key) && m[key] == before[i as int].0);
            let v = (self.entries[i].0 + delta) as i16;
            self.entries.set(i, (v, key));
            proof {
                assert forall|a: int, b: int|
                    0 <= a < b < self.entries@.len() implies self.entries@[a].1
                    != self.entries@[b].1 by {
                    assert(before[a].1 != before[b].1);
                }
                self.lemma_view();
                assert forall|k: usize| #[trigger] self.view().contains_key(k) <==> m.insert(key, v).contains_key(k) by {
                    if m.contains_key(k) {
                        let j = choose|j: int| 0 <= j < before.len() && before[j].1 == k;
                        assert(self.entries@[j].1 == k);
                    }
                    if self.view().contains_key(k) {
                        let j = choose|j: int| 0 <= j < self.entries@.len() && self.entries@[j].1 == k;
                        assert(before[j].1 == k || j == i);
                    }
                }
                assert forall|k: usize| #[trigger] self.view().contains_key(k) implies self.view()[k] == m.insert(key, v)[k] by {
                    let j = choose|j: int| 0 <= j < self.entries@.len() && self.entries@[j].1 == k;
                    assert(self.view()[k] == self.entries@[j].0);
                    if k != key {
                        assert(before[j].1 == k);
                        assert(m[k] == before[j].0);
                    }
                }
                assert(self.view() =~= m.insert(key, v));
            }
            return v;
        }
        assert(!m.contains_key(key)) by {
            if m.contains_key(key) {
                let j = choose|j: int| 0 <= j < self.entries@.len() && self.entries@[j].1 == key;
                assert(self.entries@[j].1 == key);
            }
        }
        if n == self.max_count {
            let low = lowest_index(&self.entries);
            let (lr, lk) = self.entries[low];
            proof {
                lemma_lowest(self, low as int);
            }
            let v = (lr + delta) as i16;
            let ghost before = self.entries@;
            self.entries.set(low, (v, key));
            proof {
                let m2 = m.remove(lk).insert(key, v);
                assert forall|a: int, b: int|
                    0 <= a < b < self.entries@.len() implies self.entries@[a].1
                    != self.entries@[b].1 by {
                    assert(before[a].1 != before[b].1);
                    if a == low {
                        assert(!m.contains_key(key));
                        assert(m.contains_key(before[b].1));
                    }
                    if b == low {
                        assert(m.contains_key(before[a].1));
                    }
                }
                self.lemma_view();
                assert forall|k: usize| #[trigger] self.view().contains_key(k) <==> m2.contains_key(k) by {
                    if k == key {
                        assert(self.entries@[low as int].1 == key);
                    }
                    if m2.contains_key(k) && k != key {
                        let j = choose|j: int| 0 <= j < before.len() && before[j].1 == k;
                        assert(j != low);
                        assert(self.entries@[j].1 == k);
                    }
                    if self.view().contains_key(k) {
                        let j = choose|j: int| 0 <= j < self.entries@.len() && self.entries@[j].1 == k;
                        if j != low {
                            assert(before[j].1 == k);
                            assert(before[low as int].1 != before[j].1);
                        }
                    }
                }
                assert forall|k: usize| #[trigger] self.view().contains_key(k) implies self.view()[k] == m2[k] by {
                    let j = choose|j: int| 0 <= j < self.entries@.len() && self.entries@[j].1 == k;
                    if k != key {
                        assert(j != low);
                        assert(before[j].1 == k);
                        assert(m[k] == before[j].0);
                    }
                }
                assert(self.view() =~= m2);
            }
            v
        } else {
            let ghost before = self.entries@;
            self.entries.push((delta, key));
            proof {
                assert forall|a: int, b: int|
                    0 <= a < b < self.entries@.len() implies self.entries@[a].1
                    != self.entries@[b].1 by {
                    if b == before.len() {
                        assert(m.contains_key(before[a].1));
                    } else {
                        assert(before[a].1 != before[b].1);
                    }
                }
                self.lemma_view();
                let m2 = m.insert(key, delta);
                assert forall|k: usize| #[trigger] self.view().contains_key(k) <==> m2.contains_key(k) by {
                    if k == key {
                        assert(self.entries@[before.len() as int].1 == key);
                    }
                    if m2.contains_key(k) && k != key {
                        let j = choose|j: int| 0 <= j < before.len() && before[j].1 == k;
                        assert(self.entries@[j].1 == k);
                    }
                    if self.view().contains_key(k) && k != key {
                        let j = choose|j: int| 0 <= j < self.entries@.len() && self.entries@[j].1 == k;
                        assert(before[j].1 == k);
                    }
                }
                assert forall|k: usize| #[trigger] self.view().contains_key(k) implies self.view()[k] == m2[k] by {
                    let j = choose|j: int| 0 <= j < self.entries@.len() && self.entries@[j].1 == k;
                    if k != key {
                        assert(j < before.len());
                        assert(before[j].1 == k);
                        assert(m[k] == before[j].0);
                    }
                }
                assert(self.view() =~= m2);
            }
            delta
        }
    }
}

proof fn lemma_keys_len(s: Seq<(i16, usize)>)
    requires
        forall|i: int, j: int| 0 <= i < j < s.len() ==> s[i].1 != s[j].1,
    ensures
        s.map_values(|e: (i16, usize)| e.1).to_set().len() == s.len(),
        s.map_values(|e: (i16, usize)| e.1).to_set().finite(),
{
    let ks = s.map_values(|e: (i16, usize)| e.1);
    assert forall|i: int, j: int| 0 <= i < j < ks.len() implies ks[i] != ks[j] by {
        assert(s[i].1 != s[j].1);
    }
    assert(ks.no_duplicates());
    ks.unique_seq_to_set();
}

/// The position of the entry of `key`, if there is one.
fn find_key(entries: &Vec<(i16, usize)>, key: usize) -> (r: Option<usize>)
    ensures
        match r {
            Some(i) => i < entries@.len() && entries@[i as int].1 == key,
            None => forall|j: int| 0 <= j < entries@.len() ==> entries@[j].1 != key,
        },
{
    let mut i: usize = 0;
    while i < entries.len()
        invariant
            0 <= i <= entries@.len(),
            forall|j: int| 0 <= j < i ==> entries@[j].1 != key,
        decreases entries@.len() - i,
    {
        if entries[i].1 == key {
            return Some(i);
        }
        i = i + 1;
    }
    None
}

/// The position of the lowest entry, by rating and then by key.
fn lowest_index(entries: &Vec<(i16, usize)>) -> (r: usize)
    requires
        entries@.len() > 0,
    ensures
        r < entries@.len(),
        forall|j: int| 0 <= j < entries@.len() ==> entry_le(entries@[r as int], #[trigger] entries@[j]),
{
    let mut best: usize = 0;
    let mut i: usize = 1;
    while i < entries.len()
        invariant
            0 <= best < i <= entries@.len(),
            forall|j: int| 0 <= j < i ==> entry_le(entries@[best as int], #[trigger] entries@[j]),
        decreases entries@.len() - i,
    {
        let (r, k) = entries[i];
        let (br, bk) = entries[best];
        if r < br || (r == br && k < bk) {
            best = i;
        }
        i = i + 1;
    }
    best
}

proof fn lemma_lowest(t: &TopRatings, low: int)
    requires
        t.wf(),
        0 <= low < t.entries@.len(),
        forall|j: int| 0 <= j < t.entries@.len() ==> entry_le(t.entries@[low], #[trigger] t.entries@[j]),
    ensures
        lowest_entry(t.view()) == t.entries@[low],
{
    t.lemma_view();
    let m = t.view();
    let p = t.entries@[low];
    assert forall|k: usize| #[trigger] m.contains_key(k) implies entry_le(p, (m[k], k)) by {
        let j = choose|j: int| 0 <= j < t.entries@.len() && t.entries@[j].1 == k;
        assert(t.entries@[j] == (m[k], k));
    }
    let q = lowest_entry(m);
    assert(m.contains_key(p.1) && m[p.1] == p.0);
    assert(entry_le(q, (m[p.1], p.1)));
    assert(entry_le(p, (m[q.1], q.1)));
}


impl TopRatings {
    /// The step on `key` by `delta` stays within the 16-bit range.
    pub fn step_fits(&self, key: usize, delta: i16) -> (r: bool)
        requires
            self.wf(),
            self.max_count_spec() > 0,
        ensures
            r == top_step_fits(self.view(), self.max_count_spec(), key, delta),
    {
        proof {
            self.lemma_view();
        }
        let ghost m = self.view();
        match find_key(&self.entries, key) {
            Some(i) => {
                assert(m.contains_key(key) && m[key] == self.entries@[i as int].0);
                let v = self.entries[i].0 as i32 + delta as i32;
                -32768 <= v && v <= 32767
            },
            None => {
                assert(!m.contains_key(key)) by {
                    if m.contains_key(key) {
                        let j = choose|j: int| 0 <= j < self.entries@.len() && self.entries@[j].1 == key;
                        assert(self.entries@[j].1 == key);
                    }
                }
                if self.entries.len() == self.max_count {
                    let low = lowest_index(&self.entries);
                    proof {
                        lemma_lowest(self, low as int);
                    }
                    let v = self.entries[low].0 as i32 + delta as i32;
                    -32768 <= v && v <= 32767
                } else {
                    true
                }
            },
        }
    }
}

/// Where a restriction of the candidates came from.
#[derive(Clone, Copy, PartialEq, Eq, Debug)]
pub enum Reason<LD, LL> {
    /// The level that the song database stores.
    Database(InternalScoreLevel),
    /// A record with this achievement whose rating change shows the
    /// single-song rating; with the record's label.
    Delta(AchievementValue, i16, LD),
    /// A rating target list, by its label.
    List(LL),
    /// The order of the score list of a level.
    SongScoreList(ScoreLevel),
    Assumption,
}

/// A restriction of the candidates of a chart.
#[derive(Clone, Copy, PartialEq, Eq, Debug)]
pub struct Event<LD, LL> {
    pub score: ScoreKey,
    pub candidates: InternalScoreLevel,
    pub reason: Reason<LD, LL>,
}

/// Songs new in the version under study, or older ones.
#[derive(Clone, Copy, PartialEq, Eq, Structural, Debug)]
pub enum NewOrOld {
    New,
    Old,
}

/// Why the estimator stopped.
#[derive(Clone, Copy, PartialEq, Eq, Structural, Debug)]
pub enum EstimatorError {
    /// The database stores no level for this chart.
    MissingLevel(ScoreKey),
    /// The chart is not one of the version's charts.
    NotInMap(ScoreKey),
    /// No score constant is left for the chart.
    NoMoreCandidates(ScoreKey),
    /// The chart has no version in the database.
    NoVersion(ScoreKey),
    /// A rating in the list of rated charts leaves the 16-bit range.
    RatingOverflow(ScoreKey),
}

struct Candidates {
    candidates: InternalScoreLevel,
    reasons: Vec<usize>,
}

/// The possible score constants of every chart of a version, narrowed down
/// by what the records show, with the history of every narrowing.
pub struct Estimator<LD, LL> {
    version: MaimaiVersion,
    map: Vec<Candidates>,
    events: Vec<Event<LD, LL>>,
}

/// The candidates a chart starts with: what the database stores, or, when
/// the database is not trusted, every constant of the level it stores.
pub open spec fn initial_candidates(
    version: MaimaiVersion,
    lv: InternalScoreLevel,
    distrust: bool,
    c: InternalScoreLevel,
) -> bool {
    if distrust {
        forall|x: int| #[trigger]
            c.candidate_set().contains(x) <==> constant_range(
                lv.into_level_spec(version).level,
                lv.into_level_spec(version).plus,
                is_buddies_plus_or_later(version),
            ).0 <= x < constant_range(
                lv.into_level_spec(version).level,
                lv.into_level_spec(version).plus,
                is_buddies_plus_or_later(version),
            ).1
    } else {
        c == lv
    }
}

/// The single-song rating of constant `c` (in tenths) at achievement `a`,
/// taken as a 16-bit signed number, is `rating`.
pub open spec fn rating_matches(c: int, a: AchievementValue, rating: i16) -> bool {
    ((rating_precise_spec(c as u8, a.spec_get(), rank_coef_spec(a.spec_get())) / 100_000_000) as u16) as i16
        == rating
}

impl<LD, LL> Estimator<LD, LL> {
    pub closed spec fn version_spec(&self) -> MaimaiVersion {
        self.version
    }

    /// The number of charts.
    pub closed spec fn len_spec(&self) -> nat {
        self.map@.len()
    }

    pub closed spec fn candidates_spec(&self, k: int) -> InternalScoreLevel {
        self.map@[k].candidates
    }

    /// The events that narrowed chart `k`, by position in `events_spec`.
    pub closed spec fn reasons_spec(&self, k: int) -> Seq<usize> {
        self.map@[k].reasons@
    }

    pub closed spec fn events_spec(&self) -> Seq<Event<LD, LL>> {
        self.events@
    }

    /// Every reason names an event.
    pub closed spec fn wf(&self) -> bool {
        forall|k: int, i: int|
            0 <= k < self.map@.len() && 0 <= i < self.map@[k].reasons@.len() ==> #[trigger] self.map@[k].reasons@[i]
                < self.events@.len()
    }

    /// Starts from the levels that the database stores for the version's
    /// charts, in the database's order.
    pub fn new(version: MaimaiVersion, levels: &Vec<Option<InternalScoreLevel>>) -> (r: Result<
        Estimator<LD, LL>,
        EstimatorError,
    >)
        ensures
            match r {
                Ok(e) => {
                    &&& e.wf()
                    &&& e.version_spec() == version
                    &&& e.len_spec() == levels@.len()
                    &&& e.events_spec().len() == levels@.len()
                    &&& forall|k: int|
                        0 <= k < levels@.len() ==> {
                            &&& levels@[k] is Some
                            &&& initial_candidates(
                                version,
                                levels@[k]->0,
                                false,
                                #[trigger] e.candidates_spec(k),
                            )
                            &&& e.reasons_spec(k) == seq![k as usize]
                            &&& e.events_spec()[k] == Event::<LD, LL> {
                                score: ScoreKey(k as usize),
                                candidates: e.candidates_spec(k),
                                reason: Reason::Database(e.candidates_spec(k)),
                            }
                        }
                },
                Err(err) => exists|k: int|
                    0 <= k < levels@.len() && levels@[k] is None && err
                        == EstimatorError::MissingLevel(ScoreKey(k as usize)) && forall|j: int|
                        0 <= j < k ==> #[trigger] levels@[j] is Some,
            },
    {
        Self::new_impl(version, levels, false)
    }

    /// Starts from every constant of each level that the database stores,
    /// trusting none of the constants it stores.
    pub fn new_distrust_all(version: MaimaiVersion, levels: &Vec<Option<InternalScoreLevel>>) -> (r: Result<
        Estimator<LD, LL>,
        EstimatorError,
    >)
        ensures
            match r {
                Ok(e) => {
                    &&& e.wf()
                    &&& e.version_spec() == version
                    &&& e.len_spec() == levels@.len()
                    &&& e.events_spec().len() == levels@.len()
                    &&& forall|k: int|
                        0 <= k < levels@.len() ==> {
                            &&& levels@[k] is Some
                            &&& initial_candidates(
                                version,
                                levels@[k]->0,
                                true,
                                #[trigger] e.candidates_spec(k),
                            )
                            &&& e.reasons_spec(k) == seq![k as usize]
                            &&& e.events_spec()[k] == Event::<LD, LL> {
                                score: ScoreKey(k as usize),
                                candidates: e.candidates_spec(k),
                                reason: Reason::Database(e.candidates_spec(k)),
                            }
                        }
                },
                Err(err) => exists|k: int|
                    0 <= k < levels@.len() && levels@[k] is None && err
                        == EstimatorError::MissingLevel(ScoreKey(k as usize)) && forall|j: int|
                        0 <= j < k ==> #[trigger] levels@[j] is Some,
            },
    {
        Self::new_impl(version, levels, true)
    }

    fn new_impl(version: MaimaiVersion, levels: &Vec<Option<InternalScoreLevel>>, distrust_all: bool) -> (r:
        Result<Estimator<LD, LL>, EstimatorError>)
        ensures
            match r {
                Ok(e) => {
                    &&& e.wf()
                    &&& e.version_spec() == version
                    &&& e.len_spec() == levels@.len()
                    &&& e.events_spec().len() == levels@.len()
                    &&& forall|k: int|
                        0 <= k < levels@.len() ==> {
                            &&& levels@[k] is Some
                            &&& initial_candidates(
                                version,
                                levels@[k]->0,
                                distrust_all,
                                #[trigger] e.candidates_spec(k),
                            )
                            &&& e.reasons_spec(k) == seq![k as usize]
                            &&& e.events_spec()[k] == Event::<LD, LL> {
                                score: ScoreKey(k as usize),
                                candidates: e.candidates_spec(k),
                                reason: Reason::Database(e.candidates_spec(k)),
                            }
                        }
                },
                Err(err) => exists|k: int|
                    0 <= k < levels@.len() && levels@[k] is None && err
                        == EstimatorError::MissingLevel(ScoreKey(k as usize)) && forall|j: int|
                        0 <= j < k ==> #[trigger] levels@[j] is Some,
            },
    {
        let mut map: Vec<Candidates> = Vec::new();
        let mut events: Vec<Event<LD, LL>> = Vec::new();
        let mut k: usize = 0;
        while k < levels.len()
            invariant
                0 <= k <= levels@.len(),
                map@.len() == k,
                events@.len() == k,
                forall|j: int| 0 <= j < k ==> #[trigger] levels@[j] is Some,
                forall|j: int|
                    #![trigger map@[j]]
                    0 <= j < k ==> initial_candidates(version, levels@[j]->0, distrust_all, map@[j].candidates)
                        && map@[j].reasons@ == seq![j as usize],
                forall|j: int|
                    #![trigger events@[j]]
                    0 <= j < k ==> events@[j] == (Event::<LD, LL> {
                        score: ScoreKey(j as usize),
                        candidates: map@[j].candidates,
                        reason: Reason::Database(map@[j].candidates),
                    }),
            decreases levels@.len() - k,
        {
            let lv = match levels[k] {
                Some(lv) => lv,
                None => {
                    proof {
                        assert(levels@[k as int] is None);
                        assert(forall|j: int| 0 <= j < k ==> #[trigger] levels@[j] is Some);
                    }
                    return Err(EstimatorError::MissingLevel(ScoreKey(k)));
                },
            };
            let candidates = if distrust_all {
                let l = lv.into_level(version);
                InternalScoreLevel::unknown(version, l)
            } else {
                lv
            };
            let mut reasons = Vec::new();
            reasons.push(k);
            events.push(Event { score: ScoreKey(k), candidates, reason: Reason::Database(candidates) });
            map.push(Candidates { candidates, reasons });
            k = k + 1;
        }
        let e = Estimator { version, map, events };
        proof {
            assert forall|j: int, i: int|
                0 <= j < e.map@.len() && 0 <= i < e.map@[j].reasons@.len() implies #[trigger] e.map@[j].reasons@[i]
                < e.events@.len() by {
                assert(e.map@[j].reasons@ == seq![j as usize]);
            }
            assert forall|j: int| 0 <= j < levels@.len() implies {
                &&& levels@[j] is Some
                &&& initial_candidates(version, levels@[j]->0, distrust_all, #[trigger] e.candidates_spec(j))
                &&& e.reasons_spec(j) == seq![j as usize]
                &&& e.events_spec()[j] == Event::<LD, LL> {
                    score: ScoreKey(j as usize),
                    candidates: e.candidates_spec(j),
                    reason: Reason::Database(e.candidates_spec(j)),
                }
            } by {
                assert(initial_candidates(version, levels@[j]->0, distrust_all, e.map@[j].candidates));
                assert(e.events@[j] == e.events@[j]);
            }
        }
        Ok(e)
    }

    /// Keeps the candidates of chart `score` that `predicate` accepts, and
    /// records an event when that removed any. Fails when the chart is not
    /// one of the version's, and when no candidate is left.
    pub fn set(
        &mut self,
        score: ScoreKey,
        predicate: impl Fn(ScoreConstant) -> bool,
        reason: Reason<LD, LL>,
    ) -> (r: Result<(), EstimatorError>)
        requires
            old(self).wf(),
            forall|c: ScoreConstant| #[trigger] predicate.requires((c,)),
        ensures
            final(self).wf(),
            final(self).version_spec() == old(self).version_spec(),
            final(self).len_spec() == old(self).len_spec(),
            score.0 >= old(self).len_spec() ==> {
                &&& r == Err::<(), EstimatorError>(EstimatorError::NotInMap(score))
                &&& final(self).events_spec() == old(self).events_spec()
                &&& forall|j: int| 0 <= j < old(self).len_spec() ==> #[trigger] final(self).candidates_spec(j) == old(self).candidates_spec(j)
                        && final(self).reasons_spec(j) == old(self).reasons_spec(j)
            },
            score.0 < old(self).len_spec() ==> {
                let k = score.0 as int;
                let o = old(self).candidates_spec(k);
                let n = final(self).candidates_spec(k);
                &&& forall|x: int| #[trigger] n.candidate_set().contains(x) ==> o.candidate_set().contains(x)
                &&& forall|x: int| #[trigger] o.candidate_set().contains(x) ==> 10 <= x <= 150
                &&& forall|c: ScoreConstant| #[trigger] o.candidate_set().contains(c.value() as int) ==> (
                    n.candidate_set().contains(c.value() as int) ==> predicate.ensures((c,), true))
                    && (!n.candidate_set().contains(c.value() as int) ==> predicate.ensures((c,), false))
                &&& forall|j: int| 0 <= j < old(self).len_spec() && j != k ==> #[trigger] final(self).candidates_spec(j)
                        == old(self).candidates_spec(j) && final(self).reasons_spec(j) == old(self).reasons_spec(j)
                &&& if n.candidate_list().len() < o.candidate_list().len() {
                    &&& final(self).events_spec() == old(self).events_spec().push(
                        Event { score, candidates: n, reason },
                    )
                    &&& final(self).reasons_spec(k) == old(self).reasons_spec(k).push(
                        old(self).events_spec().len() as usize,
                    )
                } else {
                    &&& final(self).events_spec() == old(self).events_spec()
                    &&& final(self).reasons_spec(k) == old(self).reasons_spec(k)
                }
                &&& (r is Err <==> forall|x: int| !#[trigger] n.candidate_set().contains(x))
                &&& r is Err ==> r == Err::<(), EstimatorError>(EstimatorError::NoMoreCandidates(score))
            },
    {
        let k = score.0;
        if k >= self.map.len() {
            return Err(EstimatorError::NotInMap(score));
        }
        let mut c = self.map[k].candidates;
        let old_len = c.count_candidates();
        c.retain(predicate);
        let new_len = c.count_candidates();
        let ghost old_map = self.map@;
        let ghost old_events = self.events@;
        let mut reasons = Vec::new();
        std::mem::swap(&mut reasons, &mut self.map[k].reasons);
        if new_len < old_len {
            let idx = self.events.len();
            self.events.push(Event { score, candidates: c, reason });
            reasons.push(idx);
        }
        self.map.set(k, Candidates { candidates: c, reasons });
        proof {
            assert forall|j: int, i: int|
                0 <= j < self.map@.len() && 0 <= i < self.map@[j].reasons@.len() implies #[trigger] self.map@[j].reasons@[i]
                < self.events@.len() by {
                if j != k {
                    assert(self.map@[j] == old_map[j]);
                    assert(old_map[j].reasons@[i] < old_events.len());
                } else if i < old_map[j].reasons@.len() {
                    assert(old_map[j].reasons@[i] < old_events.len());
                }
            }
            lemma_candidates_empty(c);
        }
        if c.is_empty() {
            proof {
                lemma_candidates_empty(c);
            }
            return Err(EstimatorError::NoMoreCandidates(score));
        }
        Ok(())
    }

    /// Keeps the candidates of chart `score` whose single-song rating at
    /// `achievement` is `rating`.
    pub fn register_single_song_rating(
        &mut self,
        score: ScoreKey,
        achievement: AchievementValue,
        rating: i16,
        label: LD,
    ) -> (r: Result<(), EstimatorError>)
        requires
            old(self).wf(),
        ensures
            final(self).wf(),
            final(self).version_spec() == old(self).version_spec(),
            final(self).len_spec() == old(self).len_spec(),
            score.0 >= old(self).len_spec() ==> r == Err::<(), EstimatorError>(
                EstimatorError::NotInMap(score),
            ) && final(self).events_spec() == old(self).events_spec()
                && forall|j: int| 0 <= j < old(self).len_spec() ==> #[trigger] final(self).candidates_spec(j) == old(self).candidates_spec(j),
            score.0 < old(self).len_spec() ==> {
                let k = score.0 as int;
                let o = old(self).candidates_spec(k);
                let n = final(self).candidates_spec(k);
                &&& forall|x: int| #[trigger] n.candidate_set().contains(x) <==> (o.candidate_set().contains(x)
                    && rating_matches(x, achievement, rating))
                &&& forall|j: int| 0 <= j < old(self).len_spec() && j != k ==> #[trigger] final(self).candidates_spec(j)
                        == old(self).candidates_spec(j)
                &&& final(self).events_spec().len() >= old(self).events_spec().len()
                &&& (r is Err <==> forall|x: int| !#[trigger] n.candidate_set().contains(x))
                &&& r is Err ==> r == Err::<(), EstimatorError>(EstimatorError::NoMoreCandidates(score))
            },
    {
        let a = achievement;
        let predicate = |lv: ScoreConstant| -> (b: bool)
            ensures
                b == rating_matches(lv.value() as int, a, rating),
            {
                let v = lv.get();
                proof {
                    lemma_rating_precise_bound(v, a.spec_get());
                }
                single_song_rating(lv, a, rank_coef(a)).get() as i16 == rating
            };
        let ghost o = self.candidates_spec(score.0 as int);
        let r = self.set(score, predicate, Reason::Delta(a, rating, label));
        proof {
            if score.0 < old(self).len_spec() {
                let n = self.candidates_spec(score.0 as int);
                assert forall|x: int| #[trigger] n.candidate_set().contains(x) <==> (o.candidate_set().contains(x)
                    && rating_matches(x, achievement, rating)) by {
                    if o.candidate_set().contains(x) {
                        lemma_constant_exists(x);
                        let c = constant_with_value(x as u8);
                        assert(c.value() == x);
                    }
                }
            }
        }
        r
    }

    /// The candidates of a chart, with the events that narrowed them, if it
    /// is one of the version's.
    pub fn get(&self, score: ScoreKey) -> (r: Option<CandidatesRef<'_, LD, LL>>)
        requires
            self.wf(),
        ensures
            score.0 < self.len_spec() ==> (r matches Some(c) && c.key_spec() == score && c.parent_spec() == self),
            score.0 >= self.len_spec() ==> r is None,
    {
        if score.0 < self.map.len() {
            Some(CandidatesRef { key: score, parent: self })
        } else {
            None
        }
    }

    /// Every chart, in order.
    pub fn get_scores(&self) -> (r: Vec<CandidatesRef<'_, LD, LL>>)
        requires
            self.wf(),
        ensures
            r@.len() == self.len_spec(),
            forall|k: int|
                0 <= k < r@.len() ==> #[trigger] r@[k].key_spec() == ScoreKey(k as usize) && r@[k].parent_spec()
                    == self,
    {
        let mut r: Vec<CandidatesRef<'_, LD, LL>> = Vec::new();
        let mut k: usize = 0;
        while k < self.map.len()
            invariant
                self.wf(),
                0 <= k <= self.map@.len(),
                r@.len() == k,
                forall|j: int|
                    0 <= j < k ==> #[trigger] r@[j].key_spec() == ScoreKey(j as usize) && r@[j].parent_spec()
                        == self,
            decreases self.map@.len() - k,
        {
            r.push(CandidatesRef { key: ScoreKey(k), parent: self });
            k = k + 1;
        }
        r
    }

    /// The events so far, in order.
    pub fn events(&self) -> (r: &[Event<LD, LL>])
        ensures
            r@ == self.events_spec(),
    {
        self.events.as_slice()
    }

    pub fn event_len(&self) -> (r: usize)
        ensures
            r == self.events_spec().len(),
    {
        self.events.len()
    }

    /// The number of charts whose constant is known.
    pub fn num_determined_scores(&self) -> (r: usize)
        ensures
            r == determined_count(self, self.len_spec() as int),
    {
        let mut count: usize = 0;
        let mut k: usize = 0;
        while k < self.map.len()
            invariant
                0 <= k <= self.map@.len(),
                count == determined_count(self, k as int),
                count <= k,
            decreases self.map@.len() - k,
        {
            if self.map[k].candidates.is_unique() {
                count = count + 1;
            }
            k = k + 1;
        }
        count
    }
}

/// One chart of an estimator.
pub struct CandidatesRef<'e, LD, LL> {
    key: ScoreKey,
    parent: &'e Estimator<LD, LL>,
}

impl<'e, LD, LL> CandidatesRef<'e, LD, LL> {
    #[verifier::type_invariant]
    spec fn inv(self) -> bool {
        self.key.0 < self.parent.len_spec() && self.parent.wf()
    }

    pub closed spec fn key_spec(self) -> ScoreKey {
        self.key
    }

    pub closed spec fn parent_spec(self) -> &'e Estimator<LD, LL> {
        self.parent
    }

    pub fn score(&self) -> (r: ScoreKey)
        ensures
            r == self.key_spec(),
    {
        self.key
    }

    /// The candidates left.
    pub fn candidates(&self) -> (r: InternalScoreLevel)
        ensures
            r == self.parent_spec().candidates_spec(self.key_spec().0 as int),
    {
        proof {
            use_type_invariant(self);
        }
        self.parent.map[self.key.0].candidates
    }
}

impl<'e, LD: Copy, LL: Copy> CandidatesRef<'e, LD, LL> {
    /// The events that narrowed the candidates, oldest first.
    pub fn reasons(&self) -> (r: Vec<Event<LD, LL>>)
        ensures
            r@.len() == self.parent_spec().reasons_spec(self.key_spec().0 as int).len(),
            forall|i: int|
                0 <= i < r@.len() ==> #[trigger] r@[i] == self.parent_spec().events_spec()[self.parent_spec().reasons_spec(
                    self.key_spec().0 as int,
                )[i] as int],
    {
        proof {
            use_type_invariant(self);
        }
        let k = self.key.0;
        let reasons = &self.parent.map[k].reasons;
        let mut r: Vec<Event<LD, LL>> = Vec::new();
        let mut i: usize = 0;
        while i < reasons.len()
            invariant
                k < self.parent.map@.len(),
                *reasons == self.parent.map@[k as int].reasons,
                self.parent.wf(),
                0 <= i <= reasons@.len(),
                r@.len() == i,
                forall|j: int|
                    0 <= j < i ==> #[trigger] r@[j] == self.parent.events@[reasons@[j] as int],
            decreases reasons@.len() - i,
        {
            let idx = reasons[i];
            assert(self.parent.map@[k as int].reasons@[i as int] < self.parent.events@.len());
            r.push(self.parent.events[idx]);
            i = i + 1;
        }
        r
    }
}

/// How many of the first `k` charts have exactly one candidate.
pub open spec fn determined_count<LD, LL>(e: &Estimator<LD, LL>, k: int) -> int
    decreases k,
{
    if k <= 0 {
        0
    } else {
        determined_count(e, k - 1) + if e.candidates_spec(k - 1).candidate_list().len() == 1 {
            1int
        } else {
            0int
        }
    }
}

/// The score constant with the given value in tenths.
pub open spec fn constant_with_value(v: u8) -> ScoreConstant {
    choose|c: ScoreConstant| c.value() == v
}

/// What a user of the estimator vouches for about their records.
#[derive(Clone, Copy, PartialEq, Eq, Structural, Debug)]
pub struct EstimatorConfig {
    /// Every new song of the version has been played and recorded.
    pub new_songs_are_complete: bool,
    /// Every old song has been played and recorded.
    pub old_songs_are_complete: bool,
    /// Records count whenever they were played.
    pub ignore_time: bool,
}

/// A record played at `time` counts for the version that runs from
/// `start` to `end` (without end when `end` is `None`).
pub open spec fn played_within_spec(config: EstimatorConfig, start: PlayTime, end: Option<PlayTime>, time: PlayTime) -> bool {
    config.ignore_time || (start.seconds() <= time.seconds() && match end {
        Some(e) => time.seconds() < e.seconds(),
        None => true,
    })
}

pub fn played_within(config: EstimatorConfig, start: PlayTime, end: Option<PlayTime>, time: PlayTime) -> (r: bool)
    ensures
        r == played_within_spec(config, start, end, time),
{
    if config.ignore_time {
        return true;
    }
    let t = time.get();
    start.get() <= t && match end {
        Some(e) => t < e.get(),
        None => true,
    }
}

/// A play record as the estimator reads it.
#[derive(Clone, Copy, Debug)]
pub struct DeltaRecord<LD> {
    /// Played between the start and the end of the version under study.
    pub within_version: bool,
    pub score: ScoreKey,
    /// The version the chart was added in, as the database says.
    pub score_version: Option<MaimaiVersion>,
    pub achievement: AchievementValue,
    pub rating_delta: i16,
    pub label: LD,
}

/// The number of charts that count towards the rating: 15 new, 35 old.
pub open spec fn rated_count(nor: NewOrOld) -> nat {
    match nor {
        NewOrOld::New => 15,
        NewOrOld::Old => 35,
    }
}

/// A record of the version whose chart belongs to the songs under study
/// (new or old) and whose rating went up.
pub open spec fn delta_counts<LD>(r: DeltaRecord<LD>, version: MaimaiVersion, nor: NewOrOld) -> bool {
    ((nor == NewOrOld::Old) != (r.score_version->0 == version)) && r.rating_delta > 0
}

/// Reading the records in order, with `n` charts in the estimator: the list
/// of rated charts, the ratings learnt (chart, achievement, single-song
/// rating), and the error that stopped the reading, if any.
pub open spec fn delta_fold<LD>(
    records: Seq<DeltaRecord<LD>>,
    version: MaimaiVersion,
    nor: NewOrOld,
    n: nat,
) -> (
    Map<usize, i16>,
    Seq<(ScoreKey, AchievementValue, i16)>,
    Option<EstimatorError>,
)
    decreases records.len(),
{
    if records.len() == 0 {
        (Map::empty(), Seq::empty(), None)
    } else {
        let prev = delta_fold(records.drop_last(), version, nor, n);
        let r = records.last();
        if prev.2 is Some || !r.within_version {
            prev
        } else if r.score_version is None {
            (prev.0, prev.1, Some(EstimatorError::NoVersion(r.score)))
        } else if !delta_counts(r, version, nor) {
            prev
        } else if !top_step_fits(prev.0, rated_count(nor), r.score.0, r.rating_delta) {
            (prev.0, prev.1, Some(EstimatorError::RatingOverflow(r.score)))
        } else if r.score.0 >= n {
            let step = top_step(prev.0, rated_count(nor), r.score.0, r.rating_delta);
            (step.0, prev.1, Some(EstimatorError::NotInMap(r.score)))
        } else {
            let step = top_step(prev.0, rated_count(nor), r.score.0, r.rating_delta);
            (step.0, prev.1.push((r.score, r.achievement, step.1 as i16)), None)
        }
    }
}

/// The learnt rating `reg` does not rule out constant `x` of chart `k`.
pub open spec fn reg_allows(x: int, reg: (ScoreKey, AchievementValue, i16), k: int) -> bool {
    reg.0.0 == k ==> rating_matches(x, reg.1, reg.2)
}

/// No learnt rating rules out constant `x` of chart `k`.
pub open spec fn kept(x: int, regs: Seq<(ScoreKey, AchievementValue, i16)>, k: int) -> bool {
    forall|i: int| 0 <= i < regs.len() ==> #[trigger] reg_allows(x, regs[i], k)
}

proof fn lemma_delta_fold_prefix<LD>(
    records: Seq<DeltaRecord<LD>>,
    version: MaimaiVersion,
    nor: NewOrOld,
    n: nat,
    i: int,
)
    requires
        0 <= i <= records.len(),
        delta_fold(records, version, nor, n).2 is None,
    ensures
        delta_fold(records.take(i), version, nor, n).2 is None,
        delta_fold(records.take(i), version, nor, n).1.len() <= delta_fold(records, version, nor, n).1.len(),
        forall|j: int|
            0 <= j < delta_fold(records.take(i), version, nor, n).1.len() ==> #[trigger] delta_fold(
                records.take(i),
                version,
                nor,
                n,
            ).1[j] == delta_fold(records, version, nor, n).1[j],
    decreases records.len() - i,
{
    if i < records.len() {
        lemma_delta_fold_step(records, version, nor, n);
        let len = records.len();
        assert(records.drop_last() =~= records.take(len - 1));
        if i == len - 1 {
            assert(records.take(i) =~= records.drop_last());
        } else {
            lemma_delta_fold_prefix(records.drop_last(), version, nor, n, i);
            assert(records.drop_last().take(i) =~= records.take(i));
        }
    } else {
        assert(records.take(i) =~= records);
    }
}

proof fn lemma_delta_fold_step<LD>(
    records: Seq<DeltaRecord<LD>>,
    version: MaimaiVersion,
    nor: NewOrOld,
    n: nat,
)
    requires
        records.len() > 0,
    ensures
        ({
            let prev = delta_fold(records.drop_last(), version, nor, n);
            let cur = delta_fold(records, version, nor, n);
            &&& cur.2 is None ==> prev.2 is None
            &&& prev.1.len() <= cur.1.len()
            &&& forall|j: int| 0 <= j < prev.1.len() ==> #[trigger] prev.1[j] == cur.1[j]
        }),
{
}

/// When the ratings learnt from the first records leave no constant for a
/// chart, reading all records cannot succeed with constants left for every
/// chart that a rating was learnt for.
proof fn lemma_no_more_candidates<LD, LL>(
    records: Seq<DeltaRecord<LD>>,
    version: MaimaiVersion,
    nor: NewOrOld,
    n: nat,
    i: int,
    init: Estimator<LD, LL>,
)
    requires
        0 <= i <= records.len(),
        version == init.version_spec(),
        n == init.len_spec(),
        delta_fold(records.take(i), version, nor, n).2 is None,
        delta_fold(records.take(i), version, nor, n).1.len() > 0,
        ({
            let regs = delta_fold(records.take(i), version, nor, n).1;
            forall|x: int|
                !(init.candidates_spec(regs.last().0.0 as int).candidate_set().contains(x) && #[trigger] kept(
                    x,
                    regs,
                    regs.last().0.0 as int,
                ))
        }),
    ensures
        !delta_succeeds(init, records, nor),
{
    let fold = delta_fold(records, version, nor, n);
    if fold.2 is None {
        lemma_delta_fold_prefix(records, version, nor, n, i);
        let regs = delta_fold(records.take(i), version, nor, n).1;
        let m = regs.len() - 1;
        let k = regs.last().0.0 as int;
        assert(fold.1[m] == regs[m]);
        if has_kept(init, fold.1, k) {
            let x = choose|x: int| init.candidates_spec(k).candidate_set().contains(x) && #[trigger] kept(x, fold.1, k);
            assert forall|j: int| 0 <= j < regs.len() implies #[trigger] reg_allows(x, regs[j], k) by {
                assert(regs[j] == fold.1[j]);
                assert(reg_allows(x, fold.1[j], k));
            }
            assert(kept(x, regs, k));
        }
        assert(!has_kept(init, fold.1, fold.1[m].0.0 as int));
    }
}

/// The candidates of every chart of `e` are those of `init` that no
/// learnt rating rules out.
pub open spec fn sets_follow<LD, LL>(
    e: Estimator<LD, LL>,
    init: Estimator<LD, LL>,
    regs: Seq<(ScoreKey, AchievementValue, i16)>,
) -> bool {
    forall|k: int, x: int|
        0 <= k < init.len_spec() ==> (#[trigger] e.candidates_spec(k).candidate_set().contains(x)
            <==> init.candidates_spec(k).candidate_set().contains(x) && kept(x, regs, k))
}

/// Every chart that a rating was learnt for is a chart of `e` with a
/// candidate left.
pub open spec fn regs_nonempty<LD, LL>(e: Estimator<LD, LL>, regs: Seq<(ScoreKey, AchievementValue, i16)>) -> bool {
    forall|j: int|
        #![trigger regs[j]]
        0 <= j < regs.len() ==> regs[j].0.0 < e.len_spec() && exists|x: int|
            e.candidates_spec(regs[j].0.0 as int).candidate_set().contains(x)
}

/// Reading the records succeeds on estimator `e`: no error, and a
/// constant is left for every chart that a rating was learnt for.
pub open spec fn delta_succeeds<LD, LL>(e: Estimator<LD, LL>, records: Seq<DeltaRecord<LD>>, nor: NewOrOld) -> bool {
    &&& delta_fold(records, e.version_spec(), nor, e.len_spec()).2 is None
    &&& learnt_nonempty(e, delta_fold(records, e.version_spec(), nor, e.len_spec()).1)
}

/// Some constant of chart `k` of `e` is left after the learnt ratings.
pub open spec fn has_kept<LD, LL>(e: Estimator<LD, LL>, regs: Seq<(ScoreKey, AchievementValue, i16)>, k: int) -> bool {
    exists|x: int| e.candidates_spec(k).candidate_set().contains(x) && #[trigger] kept(x, regs, k)
}

/// A constant of `e` is left, after the learnt ratings, for every chart
/// that a rating was learnt for.
pub open spec fn learnt_nonempty<LD, LL>(e: Estimator<LD, LL>, regs: Seq<(ScoreKey, AchievementValue, i16)>) -> bool {
    forall|i: int| 0 <= i < regs.len() ==> #[trigger] has_kept(e, regs, regs[i].0.0 as int)
}

/// The records played within the version under study, in their order.
pub open spec fn within_version_only<LD>(records: Seq<DeltaRecord<LD>>) -> Seq<DeltaRecord<LD>> {
    records.filter(|r: DeltaRecord<LD>| r.within_version)
}

proof fn lemma_delta_fold_within<LD>(records: Seq<DeltaRecord<LD>>, version: MaimaiVersion, nor: NewOrOld, n: nat)
    ensures
        delta_fold(within_version_only(records), version, nor, n) == delta_fold(records, version, nor, n),
    decreases records.len(),
{
    if records.len() > 0 {
        let rest = records.drop_last();
        lemma_delta_fold_within(rest, version, nor, n);
        reveal(Seq::filter);
        let f = within_version_only(records);
        assert(f == if records.last().within_version {
            within_version_only(rest).push(records.last())
        } else {
            within_version_only(rest)
        });
        if records.last().within_version {
            assert(f.drop_last() =~= within_version_only(rest));
            assert(f.last() == records.last());
        }
    }
}

/// Records played outside the version under study change nothing in
/// learning from rating changes: without them the records give the same
/// success and the same learnt ratings, so `determine_by_delta` leaves the
/// same candidates.
pub proof fn lemma_determine_by_delta_within<LD, LL>(
    e: Estimator<LD, LL>,
    records: Seq<DeltaRecord<LD>>,
    nor: NewOrOld,
)
    ensures
        delta_succeeds(e, within_version_only(records), nor) == delta_succeeds(e, records, nor),
        delta_learnt(e, within_version_only(records), nor) == delta_learnt(e, records, nor),
{
    lemma_delta_fold_within(records, e.version_spec(), nor, e.len_spec());
}

/// The ratings learnt by reading the records on estimator `e`.
pub open spec fn delta_learnt<LD, LL>(e: Estimator<LD, LL>, records: Seq<DeltaRecord<LD>>, nor: NewOrOld) -> Seq<
    (ScoreKey, AchievementValue, i16),
> {
    delta_fold(records, e.version_spec(), nor, e.len_spec()).1
}

proof fn lemma_kept_push(regs: Seq<(ScoreKey, AchievementValue, i16)>, reg: (ScoreKey, AchievementValue, i16))
    ensures
        forall|x: int, k: int| #[trigger] kept(x, regs.push(reg), k) <==> (kept(x, regs, k) && reg_allows(x, reg, k)),
{
    let regs2 = regs.push(reg);
    assert forall|x: int, k: int| #[trigger] kept(x, regs2, k) <==> (kept(x, regs, k) && reg_allows(x, reg, k)) by {
        if kept(x, regs, k) && reg_allows(x, reg, k) {
            assert forall|j: int| 0 <= j < regs2.len() implies #[trigger] reg_allows(x, regs2[j], k) by {
                if j < regs.len() {
                    assert(regs2[j] == regs[j]);
                }
            }
        }
        if kept(x, regs2, k) {
            assert(reg_allows(x, regs2[regs2.len() - 1], k));
            assert forall|j: int| 0 <= j < regs.len() implies #[trigger] reg_allows(x, regs[j], k) by {
                assert(regs2[j] == regs[j]);
                assert(reg_allows(x, regs2[j], k));
            }
        }
    }
}

proof fn lemma_delta_fold_keys<LD>(records: Seq<DeltaRecord<LD>>, version: MaimaiVersion, nor: NewOrOld, n: nat)
    ensures
        forall|j: int|
            0 <= j < delta_fold(records, version, nor, n).1.len() ==> #[trigger] delta_fold(
                records,
                version,
                nor,
                n,
            ).1[j].0.0 < n,
    decreases records.len(),
{
    if records.len() > 0 {
        lemma_delta_fold_keys(records.drop_last(), version, nor, n);
        let prev = delta_fold(records.drop_last(), version, nor, n);
        let cur = delta_fold(records, version, nor, n);
        assert forall|j: int| 0 <= j < cur.1.len() implies #[trigger] cur.1[j].0.0 < n by {
            if j < prev.1.len() {
                assert(cur.1[j] == prev.1[j]);
            }
        }
    }
}

/// Narrowing the candidates never turns a failing reading of records into
/// a successful one: what succeeds on an estimator succeeds on any estimator
/// of the same version and charts with at least its candidates.
pub proof fn lemma_delta_success_monotone<LD, LL>(
    wide: Estimator<LD, LL>,
    narrow: Estimator<LD, LL>,
    records: Seq<DeltaRecord<LD>>,
    nor: NewOrOld,
)
    requires
        wide.version_spec() == narrow.version_spec(),
        wide.len_spec() == narrow.len_spec(),
        forall|k: int, x: int|
            0 <= k < wide.len_spec() && #[trigger] narrow.candidates_spec(k).candidate_set().contains(x)
                ==> wide.candidates_spec(k).candidate_set().contains(x),
        delta_succeeds(narrow, records, nor),
    ensures
        delta_succeeds(wide, records, nor),
{
    let n = wide.len_spec();
    let fold = delta_fold(records, wide.version_spec(), nor, n);
    lemma_delta_fold_keys(records, wide.version_spec(), nor, n);
    assert forall|i: int| 0 <= i < fold.1.len() implies #[trigger] has_kept(wide, fold.1, fold.1[i].0.0 as int) by {
        let k = fold.1[i].0.0 as int;
        assert(has_kept(narrow, fold.1, k));
        let x = choose|x: int| narrow.candidates_spec(k).candidate_set().contains(x) && #[trigger] kept(x, fold.1, k);
        assert(wide.candidates_spec(k).candidate_set().contains(x));
    }
}

impl<LD: Copy, LL> Estimator<LD, LL> {
    /// Learns one single-song rating, keeping track of all learnt so far.
    fn learn(
        &mut self,
        score: ScoreKey,
        achievement: AchievementValue,
        rating: i16,
        label: LD,
        Ghost(init): Ghost<Estimator<LD, LL>>,
        Ghost(regs): Ghost<Seq<(ScoreKey, AchievementValue, i16)>>,
    ) -> (r: Result<(), EstimatorError>)
        requires
            old(self).wf(),
            score.0 < old(self).len_spec(),
            old(self).len_spec() == init.len_spec(),
            sets_follow(*old(self), init, regs),
            regs_nonempty(*old(self), regs),
        ensures
            final(self).wf(),
            final(self).len_spec() == old(self).len_spec(),
            final(self).version_spec() == old(self).version_spec(),
            sets_follow(*final(self), init, regs.push((score, achievement, rating))),
            r is Ok ==> regs_nonempty(*final(self), regs.push((score, achievement, rating))),
            r is Err ==> forall|x: int|
                !(init.candidates_spec(score.0 as int).candidate_set().contains(x) && #[trigger] kept(
                    x,
                    regs.push((score, achievement, rating)),
                    score.0 as int,
                )),
            r is Err ==> r == Err::<(), EstimatorError>(EstimatorError::NoMoreCandidates(score)),
    {
        let ghost cur = *self;
        let res = self.register_single_song_rating(score, achievement, rating, label);
        proof {
            let reg = (score, achievement, rating);
            let regs2 = regs.push(reg);
            lemma_kept_push(regs, reg);
            assert forall|k: int, x: int|
                0 <= k < init.len_spec() implies (#[trigger] self.candidates_spec(k).candidate_set().contains(x)
                    <==> init.candidates_spec(k).candidate_set().contains(x) && kept(x, regs2, k)) by {
                if k != score.0 {
                    assert(self.candidates_spec(k) == cur.candidates_spec(k));
                    assert(reg_allows(x, reg, k));
                }
                assert(kept(x, regs2, k) == (kept(x, regs, k) && reg_allows(x, reg, k)));
            }
            if res is Ok {
                assert forall|j: int| #![trigger regs2[j]] 0 <= j < regs2.len() implies regs2[j].0.0 < self.len_spec() && exists|x: int|
                    self.candidates_spec(regs2[j].0.0 as int).candidate_set().contains(x) by {
                    let k = regs2[j].0.0;
                    if j < regs.len() {
                        assert(regs2[j] == regs[j]);
                        if k != score.0 {
                            let x = choose|x: int| cur.candidates_spec(k as int).candidate_set().contains(x);
                            assert(self.candidates_spec(k as int) == cur.candidates_spec(k as int));
                            assert(self.candidates_spec(k as int).candidate_set().contains(x));
                        }
                    }
                }
            } else {
                assert forall|x: int|
                    !(init.candidates_spec(score.0 as int).candidate_set().contains(x) && #[trigger] kept(
                        x,
                        regs2,
                        score.0 as int,
                    )) by {
                    assert(!self.candidates_spec(score.0 as int).candidate_set().contains(x));
                }
            }
        }
        res
    }

    /// Learns single-song ratings from the rating changes of records: a
    /// record of the version, on a chart of the songs under study, whose
    /// rating went up, shows the new rating of that chart in the list of
    /// rated charts, and so which constants of the chart are possible.
    pub fn determine_by_delta(&mut self, records: &Vec<DeltaRecord<LD>>, new_or_old: NewOrOld) -> (r:
        Result<(), EstimatorError>)
        requires
            old(self).wf(),
        ensures
            final(self).wf(),
            final(self).len_spec() == old(self).len_spec(),
            r is Ok <==> delta_succeeds(*old(self), records@, new_or_old),
            r is Ok ==> sets_follow(*final(self), *old(self), delta_learnt(*old(self), records@, new_or_old)),
    {
        let version = self.version;
        let n = self.map.len();
        let max_count: usize = match new_or_old {
            NewOrOld::New => 15,
            NewOrOld::Old => 35,
        };
        let ghost init = *self;
        let ghost nn = self.len_spec();
        let mut top = TopRatings::new(max_count);
        let mut i: usize = 0;
        proof {
            assert(records@.take(0) =~= Seq::<DeltaRecord<LD>>::empty());
            assert(top.view() =~= Map::<usize, i16>::empty());
            assert forall|k: int, x: int|
                0 <= k < init.len_spec() implies (#[trigger] self.candidates_spec(k).candidate_set().contains(x)
                    <==> init.candidates_spec(k).candidate_set().contains(x) && kept(x, Seq::empty(), k)) by {}
        }
        while i < records.len()
            invariant
                0 <= i <= records@.len(),
                *old(self) == init,
                self.wf(),
                self.version_spec() == version,
                version == init.version_spec(),
                self.len_spec() == nn,
                nn == init.len_spec(),
                n == nn,
                top.wf(),
                top.max_count_spec() == rated_count(new_or_old),
                max_count == rated_count(new_or_old),
                delta_fold(records@.take(i as int), version, new_or_old, nn).0 == top.view(),
                delta_fold(records@.take(i as int), version, new_or_old, nn).2 is None,
                sets_follow(*self, init, delta_fold(records@.take(i as int), version, new_or_old, nn).1),
                regs_nonempty(*self, delta_fold(records@.take(i as int), version, new_or_old, nn).1),
            decreases records@.len() - i,
        {
            let ghost prev = delta_fold(records@.take(i as int), version, new_or_old, nn);
            proof {
                assert(records@.take(i + 1).drop_last() =~= records@.take(i as int));
                assert(records@.take(i + 1).last() == records@[i as int]);
            }
            let rec = records[i];
            if rec.within_version {
                let sv = match rec.score_version {
                    Some(v) => v,
                    None => {
                        proof {
                            if delta_fold(records@, version, new_or_old, nn).2 is None {
                                lemma_delta_fold_prefix(records@, version, new_or_old, nn, i + 1);
                            }
                        }
                        return Err(EstimatorError::NoVersion(rec.score));
                    },
                };
                let old_or_not = match new_or_old {
                    NewOrOld::Old => true,
                    NewOrOld::New => false,
                };
                if (old_or_not != (sv == version)) && rec.rating_delta > 0 {
                    if !top.step_fits(rec.score.0, rec.rating_delta) {
                        proof {
                            if delta_fold(records@, version, new_or_old, nn).2 is None {
                                lemma_delta_fold_prefix(records@, version, new_or_old, nn, i + 1);
                            }
                        }
                        return Err(EstimatorError::RatingOverflow(rec.score));
                    }
                    let rating = top.apply(rec.score.0, rec.rating_delta);
                    if rec.score.0 >= n {
                        proof {
                            if delta_fold(records@, version, new_or_old, nn).2 is None {
                                lemma_delta_fold_prefix(records@, version, new_or_old, nn, i + 1);
                            }
                        }
                        return Err(EstimatorError::NotInMap(rec.score));
                    }
                    proof {
                        assert(delta_fold(records@.take(i + 1), version, new_or_old, nn).1 == prev.1.push(
                            (rec.score, rec.achievement, rating),
                        ));
                        assert(delta_fold(records@.take(i + 1), version, new_or_old, nn).2 is None);
                    }
                    let res = self.learn(
                        rec.score,
                        rec.achievement,
                        rating,
                        rec.label,
                        Ghost(init),
                        Ghost(prev.1),
                    );
                    match res {
                        Ok(()) => {},
                        Err(e) => {
                            proof {
                                lemma_no_more_candidates(records@, version, new_or_old, nn, i + 1, init);
                            }
                            return Err(e);
                        },
                    }
                }
            }
            i = i + 1;
        }
        proof {
            assert(records@.take(records@.len() as int) =~= records@);
            let fold = delta_fold(records@, version, new_or_old, nn);
            assert(fold.2 is None);
            assert(sets_follow(*self, init, fold.1));
            assert(regs_nonempty(*self, fold.1));
            assert(init == *old(self));
            assert forall|j: int| 0 <= j < fold.1.len() implies #[trigger] has_kept(
                init,
                fold.1,
                fold.1[j].0.0 as int,
            ) by {
                let k = fold.1[j].0.0 as int;
                let x = choose|x: int| self.candidates_spec(k).candidate_set().contains(x);
                assert(self.candidates_spec(k).candidate_set().contains(x));
                assert(init.candidates_spec(k).candidate_set().contains(x));
                assert(kept(x, fold.1, k));
            }
            assert(sets_follow(*self, init, fold.1));
        }
        Ok(())
    }
}

} // verus!
