use vstd::prelude::*;

use crate::maimai::internal_lv_estimator::{rating_matches, top_step, top_step_fits, TopRatings};
use crate::maimai::rating::{
    constant_range, lemma_constant_eq, rank_coef_spec, rating_precise_spec, lemma_constant_exists, lemma_rating_precise_bound, rank_coef,
    single_song_rating, valid_level, ScoreConstant, ScoreLevel,
};
use crate::maimai::song_list::in_lv::{
    constant_with_value, score_levels_list, InternalScoreLevel, InternalScoreLevelEntry, Levels,
    ScoreLevels,
};
use crate::maimai::schema::latest::{
    time_stamp_text, AchievementRank, AchievementValue, PlayTime, RatingValue, ScoreDifficulty, ScoreGeneration,
};
use crate::maimai::version::MaimaiVersion;
use crate::maimai::parser::rating_target::{RatingTargetEntry, RatingTargetList};
use crate::text::{
    debug_string, debug_text, dec, dec_padded, dec_signed, push_decimal, push_signed_decimal, push_str, str_eq,
};

verus! {

/// A chart: the song (by its cover art, numbered by the caller), the
/// generation and the difficulty.
#[derive(Clone, Copy, PartialEq, Eq, Structural, Debug)]
pub struct ScoreKey {
    pub icon: usize,
    pub generation: ScoreGeneration,
    pub difficulty: ScoreDifficulty,
}

/// How much the estimation tells as it goes.
#[derive(Clone, Copy, PartialEq, Eq, Structural, PartialOrd, Ord, Debug)]
pub enum PrintResult {
    Quiet,
    Summarize,
    Detailed,
    Verbose,
}

/// Why the store refused.
#[derive(Clone, Copy, PartialEq, Eq, Structural, Debug)]
pub enum StoreError {
    /// Two songs share a cover art and a generation.
    DuplicateSong(usize, ScoreGeneration),
    /// Two removed songs share a cover art.
    DuplicateRemoved(usize),
    /// No chart is known under this key.
    NotFound(ScoreKey),
    /// No score constant is left for the chart.
    NoMoreCandidates(ScoreKey),
    /// A rating in the list of rated charts leaves the 16-bit range.
    RatingOverflow(ScoreKey),
    /// No song has the name that a rating target list gives.
    UnknownSong,
    /// The chart that a rating target list names belongs to a removed song.
    Removed(ScoreKey),
    /// A rating target list lacks the charts that the estimation needs.
    IncompleteList,
}

/// The possible score constants of one chart, with the events that
/// narrowed them (by position in the list of events).
pub struct ScoreConstantsEntry {
    pub key: ScoreKey,
    /// The version the song was added in.
    pub version: MaimaiVersion,
    pub candidates: Vec<ScoreConstant>,
    pub reasons: Vec<usize>,
}

/// The possible score constants of every chart, narrowed down by what the
/// records show, with the history of every narrowing.
pub struct ScoreConstantsStore {
    events: Vec<(ScoreKey, String)>,
    constants: Vec<ScoreConstantsEntry>,
    removed_icons: Vec<usize>,
    song_names: Vec<(String, usize)>,
    pub show_details: PrintResult,
}

/// A chart as the store sees it: key, version, candidates, reasons.
pub type EntryView = (ScoreKey, MaimaiVersion, Seq<ScoreConstant>, Seq<usize>);

pub open spec fn entry_view(e: ScoreConstantsEntry) -> EntryView {
    (e.key, e.version, e.candidates@, e.reasons@)
}

/// "13.2" for the constant 13.2.
pub open spec fn constant_text(c: ScoreConstant) -> Seq<char> {
    dec((c.value() / 10) as nat) + seq!['.'] + dec((c.value() % 10) as nat)
}

/// The constants, shown and separated by ", ".
pub open spec fn constants_text(s: Seq<ScoreConstant>) -> Seq<char>
    decreases s.len(),
{
    if s.len() == 0 {
        Seq::empty()
    } else if s.len() == 1 {
        constant_text(s[0])
    } else {
        constants_text(s.drop_last()) + ", "@ + constant_text(s.last())
    }
}

/// The text of an event: the candidates left, then why.
pub open spec fn reason_text(cands: Seq<ScoreConstant>, reason: Seq<char>) -> Seq<char> {
    "Constrained to ["@ + constants_text(cands) + "] "@ + reason
}

/// The constants of `s` that `p` keeps, in order.
pub open spec fn kept_by(s: Seq<ScoreConstant>, p: spec_fn(ScoreConstant) -> bool) -> Seq<ScoreConstant>
    decreases s.len(),
{
    if s.len() == 0 {
        s
    } else {
        let prev = kept_by(s.drop_last(), p);
        if p(s.last()) {
            prev.push(s.last())
        } else {
            prev
        }
    }
}

proof fn lemma_kept_by_len(s: Seq<ScoreConstant>, p: spec_fn(ScoreConstant) -> bool)
    ensures
        kept_by(s, p).len() <= s.len(),
    decreases s.len(),
{
    if s.len() > 0 {
        lemma_kept_by_len(s.drop_last(), p);
    }
}

/// The position of the chart with key `key`, if there is one.
pub open spec fn key_index(es: Seq<EntryView>, key: ScoreKey) -> Option<int> {
    if exists|i: int| 0 <= i < es.len() && es[i].0 == key {
        Some(choose|i: int| 0 <= i < es.len() && es[i].0 == key)
    } else {
        None
    }
}

/// "100.5000%" for an achievement of 100.5%.
pub open spec fn achievement_text(a: AchievementValue) -> Seq<char> {
    dec((a.spec_get() / 10000) as nat) + seq!['.'] + dec_padded((a.spec_get() % 10000) as nat, 4) + seq!['%']
}

/// Who played a record, as the reasons name them.
pub open spec fn played_by_text(user: Option<Seq<char>>) -> Seq<char> {
    match user {
        Some(u) => " played by UserName("@ + debug_text(u) + ")"@,
        None => Seq::empty(),
    }
}

/// Why a record narrows the constants of its chart.
pub open spec fn delta_reason_text(time: PlayTime, a: AchievementValue, user: Option<Seq<char>>, rating: i16) -> Seq<
    char,
> {
    "beacuse record played at "@ + time_stamp_text(time.seconds()) + " achieving "@ + achievement_text(a)
        + played_by_text(user) + " determines the single-song rating to be "@ + dec_signed(rating as int)
}

/// What a narrowing of chart `i` to `n` with reason text `reason` does to
/// the charts and to the events.
pub open spec fn narrowed(
    es: Seq<EntryView>,
    events: Seq<(ScoreKey, Seq<char>)>,
    i: int,
    n: Seq<ScoreConstant>,
    reason: Seq<char>,
) -> (Seq<EntryView>, Seq<(ScoreKey, Seq<char>)>) {
    let e = es[i];
    if n.len() < e.2.len() {
        (es.update(i, (e.0, e.1, n, e.3.push(events.len() as usize))), events.push((e.0, reason_text(n, reason))))
    } else {
        (es.update(i, (e.0, e.1, n, e.3)), events)
    }
}

impl ScoreConstantsStore {
    pub closed spec fn entries_spec(&self) -> Seq<EntryView> {
        self.constants@.map_values(|e: ScoreConstantsEntry| entry_view(e))
    }

    pub closed spec fn events_spec(&self) -> Seq<(ScoreKey, Seq<char>)> {
        self.events@.map_values(|e: (ScoreKey, String)| (e.0, e.1@))
    }

    /// The cover arts of removed songs.
    pub closed spec fn removed_spec(&self) -> Seq<usize> {
        self.removed_icons@
    }

    pub closed spec fn show_details_spec(&self) -> PrintResult {
        self.show_details
    }

    /// Song names with the cover art of each song of that name.
    pub closed spec fn names_spec(&self) -> Seq<(Seq<char>, usize)> {
        self.song_names@.map_values(|e: (String, usize)| (e.0@, e.1))
    }

    /// Keys are distinct, and every reason names an event.
    pub open spec fn wf(&self) -> bool {
        &&& forall|i: int, j: int|
            0 <= i < j < self.entries_spec().len() ==> #[trigger] self.entries_spec()[i].0
                != #[trigger] self.entries_spec()[j].0
        &&& forall|i: int, j: int|
            0 <= i < self.entries_spec().len() && 0 <= j < self.entries_spec()[i].3.len()
                ==> #[trigger] self.entries_spec()[i].3[j] < self.events_spec().len()
    }

    proof fn lemma_views(&self)
        ensures
            self.entries_spec().len() == self.constants@.len(),
            forall|i: int| 0 <= i < self.constants@.len() ==> #[trigger] self.entries_spec()[i] == entry_view(self.constants@[i]),
            self.events_spec().len() == self.events@.len(),
            forall|i: int| 0 <= i < self.events@.len() ==> #[trigger] self.events_spec()[i] == (self.events@[i].0, self.events@[i].1@),
    {
    }

    /// The position of the chart with key `key`.
    fn find(&self, key: ScoreKey) -> (r: Option<usize>)
        requires
            self.wf(),
        ensures
            match r {
                Some(i) => key_index(self.entries_spec(), key) == Some(i as int),
                None => key_index(self.entries_spec(), key) is None,
            },
    {
        proof {
            self.lemma_views();
        }
        let mut i: usize = 0;
        while i < self.constants.len()
            invariant
                0 <= i <= self.constants@.len(),
                self.wf(),
                self.entries_spec().len() == self.constants@.len(),
                forall|j: int| 0 <= j < i ==> #[trigger] self.entries_spec()[j].0 != key,
            decreases self.constants@.len() - i,
        {
            proof {
                self.lemma_views();
            }
            if self.constants[i].key == key {
                proof {
                    let es = self.entries_spec();
                    assert(es[i as int].0 == key);
                    let k = choose|k: int| 0 <= k < es.len() && es[k].0 == key;
                    if k != i {
                        if k < i {
                            assert(es[k].0 != key);
                        } else {
                            assert(es[i as int].0 != es[k].0);
                        }
                    }
                }
                return Some(i);
            }
            i = i + 1;
        }
        None
    }

    /// The chart with key `key`; none for a chart of a removed song that the
    /// store does not hold.
    pub fn get(&self, key: ScoreKey) -> (r: Result<Option<&ScoreConstantsEntry>, StoreError>)
        requires
            self.wf(),
        ensures
            match key_index(self.entries_spec(), key) {
                Some(i) => r matches Ok(Some(e)) && entry_view(*e) == self.entries_spec()[i],
                None => if self.removed_spec().contains(key.icon) {
                    r matches Ok(None)
                } else {
                    r == Err::<Option<&ScoreConstantsEntry>, StoreError>(StoreError::NotFound(key))
                },
            },
    {
        proof {
            self.lemma_views();
        }
        match self.find(key) {
            Some(i) => {
                proof {
                    let j = key_index(self.entries_spec(), key)->0;
                    assert(0 <= j < self.entries_spec().len());
                    assert(j == i as int);
                }
                Ok(Some(&self.constants[i]))
            },
            None => {
                let mut k: usize = 0;
                while k < self.removed_icons.len()
                    invariant
                        0 <= k <= self.removed_icons@.len(),
                        key_index(self.entries_spec(), key) is None,
                        forall|j: int| 0 <= j < k ==> #[trigger] self.removed_icons@[j] != key.icon,
                    decreases self.removed_icons@.len() - k,
                {
                    if self.removed_icons[k] == key.icon {
                        proof {
                            assert(self.removed_spec()[k as int] == key.icon);
                        }
                        return Ok(None);
                    }
                    k = k + 1;
                }
                Err(StoreError::NotFound(key))
            },
        }
    }

    /// Narrows chart `i` to `n`, recording an event when that removed any
    /// candidate.
    fn narrow(&mut self, i: usize, n: Vec<ScoreConstant>, reason: &str) -> (r: Result<(), StoreError>)
        requires
            old(self).wf(),
            i < old(self).entries_spec().len(),
            n@.len() <= old(self).entries_spec()[i as int].2.len(),
        ensures
            final(self).wf(),
            (final(self).entries_spec(), final(self).events_spec()) == narrowed(
                old(self).entries_spec(),
                old(self).events_spec(),
                i as int,
                n@,
                reason@,
            ),
            final(self).removed_spec() == old(self).removed_spec(),
            final(self).names_spec() == old(self).names_spec(),
            final(self).show_details_spec() == old(self).show_details_spec(),
            r is Err <==> (n@.len() < old(self).entries_spec()[i as int].2.len() && n@.len() == 0),
            r is Err ==> r == Err::<(), StoreError>(
                StoreError::NoMoreCandidates(old(self).entries_spec()[i as int].0),
            ),
    {
        proof {
            self.lemma_views();
        }
        let ghost es = self.entries_spec();
        let ghost evs = self.events_spec();
        let key = self.constants[i].key;
        let old_len = self.constants[i].candidates.len();
        let text = reason_string(&n, reason);
        let shrunk = n.len() < old_len;
        let empty = n.len() == 0;
        let mut reasons: Vec<usize> = Vec::new();
        std::mem::swap(&mut reasons, &mut self.constants[i].reasons);
        if shrunk {
            reasons.push(self.events.len());
            self.events.push((key, text));
        }
        let version = self.constants[i].version;
        self.constants.set(i, ScoreConstantsEntry { key, version, candidates: n, reasons });
        proof {
            self.lemma_views();
            let target = narrowed(es, evs, i as int, n@, reason@);
            assert(self.entries_spec() =~= target.0);
            assert(self.events_spec() =~= target.1);
            assert forall|a: int, b: int|
                0 <= a < b < self.entries_spec().len() implies #[trigger] self.entries_spec()[a].0
                != #[trigger] self.entries_spec()[b].0 by {
                assert(es[a].0 != es[b].0);
            }
            assert forall|a: int, b: int|
                0 <= a < self.entries_spec().len() && 0 <= b < self.entries_spec()[a].3.len()
                implies #[trigger] self.entries_spec()[a].3[b] < self.events_spec().len() by {
                if a != i || b < es[a].3.len() {
                    assert(es[a].3[b] < evs.len());
                }
            }
        }
        if shrunk && empty {
            return Err(StoreError::NoMoreCandidates(key));
        }
        Ok(())
    }

    /// Keeps the candidates of chart `key` that `new` holds.
    pub fn set(&mut self, key: ScoreKey, new: &Vec<ScoreConstant>, reason: &str) -> (r: Result<(), StoreError>)
        requires
            old(self).wf(),
        ensures
            final(self).wf(),
            final(self).removed_spec() == old(self).removed_spec(),
            final(self).names_spec() == old(self).names_spec(),
            final(self).show_details_spec() == old(self).show_details_spec(),
            match key_index(old(self).entries_spec(), key) {
                None => {
                    &&& r == Err::<(), StoreError>(StoreError::NotFound(key))
                    &&& final(self).entries_spec() == old(self).entries_spec()
                    &&& final(self).events_spec() == old(self).events_spec()
                },
                Some(i) => {
                    let o = old(self).entries_spec()[i].2;
                    let n = kept_by(o, |c: ScoreConstant| new@.contains(c));
                    &&& (final(self).entries_spec(), final(self).events_spec()) == narrowed(
                        old(self).entries_spec(),
                        old(self).events_spec(),
                        i,
                        n,
                        reason@,
                    )
                    &&& (r is Err <==> (n.len() < o.len() && n.len() == 0))
                    &&& r is Err ==> r == Err::<(), StoreError>(StoreError::NoMoreCandidates(key))
                },
            },
    {
        proof {
            self.lemma_views();
        }
        let i = match self.find(key) {
            Some(i) => i,
            None => {
                return Err(StoreError::NotFound(key));
            },
        };
        let ghost o = self.entries_spec()[i as int].2;
        let ghost p = |c: ScoreConstant| new@.contains(c);
        let mut n: Vec<ScoreConstant> = Vec::new();
        let mut k: usize = 0;
        let len = self.constants[i].candidates.len();
        while k < len
            invariant
                i < self.constants@.len(),
                o == self.constants@[i as int].candidates@,
                len == o.len(),
                0 <= k <= len,
                n@ == kept_by(o.take(k as int), p),
                p == (|c: ScoreConstant| new@.contains(c)),
            decreases len - k,
        {
            let c = self.constants[i].candidates[k];
            proof {
                assert(o.take(k + 1).drop_last() =~= o.take(k as int));
                assert(o.take(k + 1).last() == c);
            }
            if contains_constant(new, c) {
                n.push(c);
            }
            k = k + 1;
        }
        proof {
            assert(o.take(len as int) =~= o);
            lemma_kept_by_len(o, p);
            assert(p =~= (|c: ScoreConstant| new@.contains(c)));
            let j = key_index(self.entries_spec(), key)->0;
            assert(0 <= j < self.entries_spec().len());
            assert(j == i as int);
        }
        self.narrow(i, n, reason)
    }

    /// Keeps the candidates of chart `key` whose single-song rating at
    /// achievement `a` is `rating`, as a record played at `time` by `user`
    /// shows.
    pub fn register_single_song_rating(
        &mut self,
        key: ScoreKey,
        user: Option<&str>,
        a: AchievementValue,
        rating: i16,
        time: PlayTime,
    ) -> (r: Result<(), StoreError>)
        requires
            old(self).wf(),
        ensures
            final(self).wf(),
            final(self).removed_spec() == old(self).removed_spec(),
            final(self).names_spec() == old(self).names_spec(),
            final(self).show_details_spec() == old(self).show_details_spec(),
            match key_index(old(self).entries_spec(), key) {
                None => {
                    &&& r == Err::<(), StoreError>(StoreError::NotFound(key))
                    &&& final(self).entries_spec() == old(self).entries_spec()
                    &&& final(self).events_spec() == old(self).events_spec()
                },
                Some(i) => {
                    let o = old(self).entries_spec()[i].2;
                    let n = kept_by(o, |c: ScoreConstant| rating_matches(c.value() as int, a, rating));
                    &&& (final(self).entries_spec(), final(self).events_spec()) == narrowed(
                        old(self).entries_spec(),
                        old(self).events_spec(),
                        i,
                        n,
                        delta_reason_text(
                            time,
                            a,
                            match user {
                                Some(u) => Some(u@),
                                None => None,
                            },
                            rating,
                        ),
                    )
                    &&& (r is Err <==> (n.len() < o.len() && n.len() == 0))
                    &&& r is Err ==> r == Err::<(), StoreError>(StoreError::NoMoreCandidates(key))
                },
            },
    {
        proof {
            self.lemma_views();
        }
        let i = match self.find(key) {
            Some(i) => i,
            None => {
                return Err(StoreError::NotFound(key));
            },
        };
        let ghost o = self.entries_spec()[i as int].2;
        let ghost p = |c: ScoreConstant| rating_matches(c.value() as int, a, rating);
        let coef = rank_coef(a);
        let mut n: Vec<ScoreConstant> = Vec::new();
        let mut k: usize = 0;
        let len = self.constants[i].candidates.len();
        while k < len
            invariant
                i < self.constants@.len(),
                o == self.constants@[i as int].candidates@,
                len == o.len(),
                0 <= k <= len,
                n@ == kept_by(o.take(k as int), p),
                p == (|c: ScoreConstant| rating_matches(c.value() as int, a, rating)),
                coef.0 == crate::maimai::rating::rank_coef_spec(a.spec_get()),
            decreases len - k,
        {
            let c = self.constants[i].candidates[k];
            proof {
                assert(o.take(k + 1).drop_last() =~= o.take(k as int));
                assert(o.take(k + 1).last() == c);
            }
            let v = c.get();
            proof {
                lemma_rating_precise_bound(v, a.spec_get());
            }
            if single_song_rating(c, a, coef).get() as i16 == rating {
                n.push(c);
            }
            k = k + 1;
        }
        proof {
            assert(o.take(len as int) =~= o);
            lemma_kept_by_len(o, p);
            assert(p =~= (|c: ScoreConstant| rating_matches(c.value() as int, a, rating)));
            let j = key_index(self.entries_spec(), key)->0;
            assert(0 <= j < self.entries_spec().len());
            assert(j == i as int);
        }
        let reason = delta_reason_string(time, a, user, rating);
        self.narrow(i, n, reason.as_str())
    }

    /// The number of charts whose constant is known.
    pub fn num_determined_songs(&self) -> (r: usize)
        ensures
            r == determined_count(self.entries_spec(), self.entries_spec().len() as int),
    {
        proof {
            self.lemma_views();
        }
        let mut count: usize = 0;
        let mut k: usize = 0;
        while k < self.constants.len()
            invariant
                0 <= k <= self.constants@.len(),
                self.entries_spec().len() == self.constants@.len(),
                forall|j: int| 0 <= j < self.constants@.len() ==> #[trigger] self.entries_spec()[j] == entry_view(self.constants@[j]),
                count == determined_count(self.entries_spec(), k as int),
                count <= k,
            decreases self.constants@.len() - k,
        {
            if self.constants[k].candidates.len() == 1 {
                count = count + 1;
            }
            k = k + 1;
        }
        count
    }

    /// The events so far, in order.
    pub fn events(&self) -> (r: &Vec<(ScoreKey, String)>)
        ensures
            r@.map_values(|e: (ScoreKey, String)| (e.0, e.1@)) == self.events_spec(),
    {
        &self.events
    }

    /// Every chart, in order.
    pub fn scores(&self) -> (r: &Vec<ScoreConstantsEntry>)
        ensures
            r@.map_values(|e: ScoreConstantsEntry| entry_view(e)) == self.entries_spec(),
    {
        &self.constants
    }
}

/// What a song name of a rating target list leads to.
#[derive(Clone, Copy, PartialEq, Eq, Structural, Debug)]
pub enum KeyFromTargetEntry {
    /// No song has that name.
    NotFound,
    /// One song has that name: its chart of the entry's generation and
    /// difficulty.
    Unique(ScoreKey),
    /// Songs with different cover arts share the name.
    Multiple,
}

/// The cover arts of the songs named `name`.
pub open spec fn icons_named(names: Seq<(Seq<char>, usize)>, name: Seq<char>) -> Set<usize> {
    Set::new(|icon: usize| exists|j: int| 0 <= j < names.len() && names[j] == (name, icon))
}

pub open spec fn key_from_names(
    names: Seq<(Seq<char>, usize)>,
    name: Seq<char>,
    generation: ScoreGeneration,
    difficulty: ScoreDifficulty,
) -> KeyFromTargetEntry {
    let icons = icons_named(names, name);
    if icons.is_empty() {
        KeyFromTargetEntry::NotFound
    } else if exists|icon: usize| icons == set![icon] {
        KeyFromTargetEntry::Unique(
            ScoreKey { icon: choose|icon: usize| icons == set![icon], generation, difficulty },
        )
    } else {
        KeyFromTargetEntry::Multiple
    }
}

impl ScoreConstantsStore {
    /// The chart that an entry of a rating target list names, found by the
    /// song name.
    pub fn key_from_target_entry(&self, entry: &RatingTargetEntry) -> (r: KeyFromTargetEntry)
        ensures
            r == key_from_names(
                self.names_spec(),
                entry.song_name.0@,
                entry.score_metadata.generation,
                entry.score_metadata.difficulty,
            ),
    {
        let name = entry.song_name.0.as_str();
        let ghost names = self.names_spec();
        let mut first: Option<usize> = None;
        let mut multiple = false;
        let mut k: usize = 0;
        while k < self.song_names.len()
            invariant
                0 <= k <= self.song_names@.len(),
                names == self.names_spec(),
                names.len() == self.song_names@.len(),
                forall|j: int| 0 <= j < names.len() ==> #[trigger] names[j] == (self.song_names@[j].0@, self.song_names@[j].1),
                first is None <==> forall|j: int| 0 <= j < k ==> #[trigger] names[j].0 != name@,
                first matches Some(f) ==> exists|j: int| 0 <= j < k && names[j] == (name@, f),
                multiple <==> (first matches Some(f) && exists|j: int|
                    0 <= j < k && names[j].0 == name@ && #[trigger] names[j].1 != f),
            decreases self.song_names@.len() - k,
        {
            let ghost first0 = first;
            let ghost multiple0 = multiple;
            proof {
                assert(names[k as int] == (self.song_names@[k as int].0@, self.song_names@[k as int].1));
            }
            let matched = str_eq(self.song_names[k].0.as_str(), name);
            if matched {
                let icon = self.song_names[k].1;
                match first {
                    None => {
                        first = Some(icon);
                    },
                    Some(f) => {
                        if icon != f {
                            multiple = true;
                        }
                    },
                }
            }
            proof {
                let kk = k as int;
                if matched {
                    assert(names[kk].0 == name@);
                    assert(!(forall|j: int| 0 <= j < kk + 1 ==> #[trigger] names[j].0 != name@));
                    match first0 {
                        None => {
                            assert(names[kk] == (name@, first->0));
                            assert(!multiple);
                            assert forall|j: int| 0 <= j < kk + 1 && names[j].0 == name@ implies #[trigger] names[j].1 == first->0 by {
                                if j < kk {
                                    assert(names[j].0 != name@);
                                }
                            }
                        },
                        Some(f) => {
                            if names[kk].1 != f {
                                assert(multiple);
                            } else {
                                assert(multiple == multiple0);
                            }
                        },
                    }
                } else {
                    assert(names[kk].0 != name@);
                    assert(first == first0 && multiple == multiple0);
                }
            }
            k = k + 1;
        }
        let ghost icons = icons_named(names, name@);
        let g = entry.score_metadata.generation;
        let d = entry.score_metadata.difficulty;
        match first {
            None => {
                proof {
                    assert(icons =~= Set::<usize>::empty()) by {
                        assert forall|icon: usize| !icons.contains(icon) by {
                            if icons.contains(icon) {
                                let j = choose|j: int| 0 <= j < names.len() && names[j] == (name@, icon);
                                assert(names[j].0 != name@);
                            }
                        }
                    }
                }
                KeyFromTargetEntry::NotFound
            },
            Some(f) => {
                proof {
                    let j0 = choose|j: int| 0 <= j < k && names[j] == (name@, f);
                    assert(icons.contains(f));
                }
                if multiple {
                    proof {
                        let j1 = choose|j: int| 0 <= j < k && names[j].0 == name@ && #[trigger] names[j].1 != f;
                        let g1 = names[j1].1;
                        assert(icons.contains(g1));
                        assert forall|icon: usize| icons != set![icon] by {
                            if icons == set![icon] {
                                assert(set![icon].contains(f));
                                assert(set![icon].contains(g1));
                            }
                        }
                    }
                    KeyFromTargetEntry::Multiple
                } else {
                    proof {
                        assert(icons =~= set![f]) by {
                            assert forall|icon: usize| icons.contains(icon) implies icon == f by {
                                let j = choose|j: int| 0 <= j < names.len() && names[j] == (name@, icon);
                                if icon != f {
                                    assert(names[j].1 != f);
                                }
                            }
                        }
                        assert(!icons.is_empty()) by {
                            assert(icons.contains(f));
                        }
                        assert(icons == set![f]);
                        let c = choose|icon: usize| icons == set![icon];
                        assert(set![c].contains(f));
                    }
                    KeyFromTargetEntry::Unique(ScoreKey { icon: f, generation: g, difficulty: d })
                }
            },
        }
    }
}

/// A song of the level table, by its cover art.
pub struct StoreSong {
    pub icon: usize,
    pub name: String,
    pub generation: ScoreGeneration,
    pub version: MaimaiVersion,
    pub levels: ScoreLevels<Levels>,
}

/// A removed song, with its levels when the table still has them.
pub struct RemovedStoreSong {
    pub icon: usize,
    pub name: String,
    pub levels: Option<StoreSong>,
}

/// A song of the merged table: cover art, generation, version, levels.
pub type TableEntry = (usize, ScoreGeneration, MaimaiVersion, ScoreLevels<Levels>);

/// A chart of the merged table: key, version, level.
pub type Chart = (ScoreKey, MaimaiVersion, InternalScoreLevel);

/// The key at position `j` occurs earlier too.
pub open spec fn repeats_earlier<K>(keys: Seq<K>, j: int) -> bool {
    exists|i: int| 0 <= i < j && keys[i] == keys[j]
}

/// The first position whose key occurs earlier too.
pub open spec fn first_dup<K>(keys: Seq<K>) -> Option<int> {
    if exists|j: int| 0 <= j < keys.len() && repeats_earlier(keys, j) {
        Some(
            choose|j: int|
                0 <= j < keys.len() && repeats_earlier(keys, j) && forall|m: int|
                    0 <= m < j ==> !#[trigger] repeats_earlier(keys, m),
        )
    } else {
        None
    }
}

/// Finds the first position whose key occurs earlier too, given that the
/// search found `j` and nothing before it.
proof fn lemma_first_dup_found<K>(keys: Seq<K>, j: int)
    requires
        0 <= j < keys.len(),
        repeats_earlier(keys, j),
        forall|m: int| 0 <= m < j ==> !#[trigger] repeats_earlier(keys, m),
    ensures
        first_dup(keys) == Some(j),
{
    let c = choose|c: int|
        0 <= c < keys.len() && repeats_earlier(keys, c) && forall|m: int|
            0 <= m < c ==> !#[trigger] repeats_earlier(keys, m);
    if c < j {
        assert(!repeats_earlier(keys, c));
    } else if c > j {
        assert(!repeats_earlier(keys, j));
    }
}

/// No key occurs twice.
pub open spec fn distinct_keys<K>(keys: Seq<K>) -> bool {
    forall|i: int, j: int| 0 <= i < j < keys.len() ==> keys[i] != keys[j]
}

proof fn lemma_first_dup_none<K>(keys: Seq<K>)
    requires
        forall|m: int| 0 <= m < keys.len() ==> !#[trigger] repeats_earlier(keys, m),
    ensures
        first_dup(keys) is None,
        distinct_keys(keys),
{
    assert forall|i: int, j: int| 0 <= i < j < keys.len() implies keys[i] != keys[j] by {
        assert(!repeats_earlier(keys, j));
    }
}

/// Puts a song into the table: in place of the song with the same cover
/// art and generation, or at the end.
pub open spec fn place(t: Seq<TableEntry>, e: TableEntry) -> Seq<TableEntry> {
    if exists|i: int| 0 <= i < t.len() && t[i].0 == e.0 && t[i].1 == e.1 {
        t.update(choose|i: int| 0 <= i < t.len() && t[i].0 == e.0 && t[i].1 == e.1, e)
    } else {
        t.push(e)
    }
}

pub open spec fn song_entry(s: StoreSong) -> TableEntry {
    (s.icon, s.generation, s.version, s.levels)
}

/// The songs, then the levels of removed songs in place of or after them.
pub open spec fn song_table(songs: Seq<StoreSong>, removed: Seq<RemovedStoreSong>) -> Seq<TableEntry>
    decreases removed.len(),
{
    if removed.len() == 0 {
        songs.map_values(|s: StoreSong| song_entry(s))
    } else {
        let t = song_table(songs, removed.drop_last());
        let r = removed.last();
        match r.levels {
            None => t,
            Some(l) => place(t, (r.icon, l.generation, l.version, l.levels)),
        }
    }
}

/// The charts of one song, easiest first.
pub open spec fn song_charts(e: TableEntry) -> Seq<Chart> {
    score_levels_list(e.3).map_values(
        |p: (ScoreDifficulty, InternalScoreLevelEntry<Levels>)|
            (ScoreKey { icon: e.0, generation: e.1, difficulty: p.0 }, e.2, p.1.value),
    )
}

/// The charts of every song of the table, song by song.
pub open spec fn table_charts(t: Seq<TableEntry>) -> Seq<Chart>
    decreases t.len(),
{
    if t.len() == 0 {
        Seq::empty()
    } else {
        table_charts(t.drop_last()) + song_charts(t.last())
    }
}

/// The constants of a level ("+" from .6), in increasing order.
pub open spec fn level_constants(l: ScoreLevel) -> Seq<ScoreConstant> {
    let r = constant_range(l.level, l.plus, true);
    Seq::new((r.1 - r.0) as nat, |i: int| constant_with_value((r.0 + i) as u8))
}

/// The candidates a chart starts with.
pub open spec fn level_candidates(l: InternalScoreLevel) -> Seq<ScoreConstant> {
    match l {
        InternalScoreLevel::Unknown(level) => level_constants(level),
        InternalScoreLevel::Known(c) => seq![c],
    }
}

/// "13+" for the level 13+.
pub open spec fn level_text(l: ScoreLevel) -> Seq<char> {
    dec(l.level as nat) + (if l.plus { seq!['+'] } else { Seq::empty() })
}

/// Why a chart starts with its candidates.
pub open spec fn level_reason(l: InternalScoreLevel) -> Seq<char> {
    match l {
        InternalScoreLevel::Unknown(level) => "because this score's level is "@ + level_text(level),
        InternalScoreLevel::Known(_) => "as it is already known"@,
    }
}

/// The charts as the store starts with them.
pub open spec fn chart_entries(cs: Seq<Chart>) -> Seq<EntryView> {
    Seq::new(cs.len(), |i: int| (cs[i].0, cs[i].1, level_candidates(cs[i].2), seq![i as usize]))
}

/// The events the store starts with: one per chart.
pub open spec fn chart_events(cs: Seq<Chart>) -> Seq<(ScoreKey, Seq<char>)> {
    Seq::new(cs.len(), |i: int| (cs[i].0, reason_text(level_candidates(cs[i].2), level_reason(cs[i].2))))
}

/// An unknown level names a level number that exists.
pub open spec fn level_ok(l: InternalScoreLevel) -> bool {
    match l {
        InternalScoreLevel::Unknown(level) => 1 <= level.level <= 15,
        InternalScoreLevel::Known(_) => true,
    }
}

/// Every unknown level of a song names a level number that exists.
pub open spec fn song_levels_valid(l: ScoreLevels<Levels>) -> bool {
    forall|i: int| 0 <= i < score_levels_list(l).len() ==> level_ok((#[trigger] score_levels_list(l)[i]).1.value)
}

pub open spec fn removed_icons_of(rs: Seq<RemovedStoreSong>) -> Seq<usize> {
    rs.map_values(|r: RemovedStoreSong| r.icon)
}

pub open spec fn song_keys_of(ss: Seq<StoreSong>) -> Seq<(usize, ScoreGeneration)> {
    ss.map_values(|s: StoreSong| (s.icon, s.generation))
}

/// No two songs of the table share a cover art and a generation.
pub open spec fn table_distinct(t: Seq<TableEntry>) -> bool {
    forall|i: int, j: int| 0 <= i < j < t.len() ==> !(t[i].0 == t[j].0 && t[i].1 == t[j].1)
}

/// Song names with cover arts: those of the songs, then those of the
/// removed songs.
pub open spec fn names_of(songs: Seq<StoreSong>, removed: Seq<RemovedStoreSong>) -> Seq<(Seq<char>, usize)> {
    songs.map_values(|s: StoreSong| (s.name@, s.icon)) + removed.map_values(|r: RemovedStoreSong| (r.name@, r.icon))
}

fn find_removed_dup(removed: &Vec<RemovedStoreSong>) -> (r: Option<usize>)
    ensures
        match r {
            Some(j) => j < removed@.len() && first_dup(removed_icons_of(removed@)) == Some(j as int),
            None => first_dup(removed_icons_of(removed@)) is None,
        },
{
    let ghost keys = removed_icons_of(removed@);
    let mut j: usize = 0;
    while j < removed.len()
        invariant
            0 <= j <= removed@.len(),
            keys == removed_icons_of(removed@),
            forall|m: int| 0 <= m < j ==> !#[trigger] repeats_earlier(keys, m),
        decreases removed@.len() - j,
    {
        let mut i: usize = 0;
        while i < j
            invariant
                0 <= i <= j < removed@.len(),
                keys == removed_icons_of(removed@),
                forall|m: int| 0 <= m < j ==> !#[trigger] repeats_earlier(keys, m),
                forall|a: int| 0 <= a < i ==> keys[a] != keys[j as int],
            decreases j - i,
        {
            if removed[i].icon == removed[j].icon {
                proof {
                    assert(keys[i as int] == keys[j as int]);
                    lemma_first_dup_found(keys, j as int);
                }
                return Some(j);
            }
            i = i + 1;
        }
        j = j + 1;
    }
    proof {
        lemma_first_dup_none(keys);
    }
    None
}

fn find_song_dup(songs: &Vec<StoreSong>) -> (r: Option<usize>)
    ensures
        match r {
            Some(j) => j < songs@.len() && first_dup(song_keys_of(songs@)) == Some(j as int),
            None => first_dup(song_keys_of(songs@)) is None && distinct_keys(song_keys_of(songs@)),
        },
{
    let ghost keys = song_keys_of(songs@);
    let mut j: usize = 0;
    while j < songs.len()
        invariant
            0 <= j <= songs@.len(),
            keys == song_keys_of(songs@),
            forall|m: int| 0 <= m < j ==> !#[trigger] repeats_earlier(keys, m),
        decreases songs@.len() - j,
    {
        let mut i: usize = 0;
        while i < j
            invariant
                0 <= i <= j < songs@.len(),
                keys == song_keys_of(songs@),
                forall|m: int| 0 <= m < j ==> !#[trigger] repeats_earlier(keys, m),
                forall|a: int| 0 <= a < i ==> keys[a] != keys[j as int],
            decreases j - i,
        {
            if songs[i].icon == songs[j].icon && songs[i].generation == songs[j].generation {
                proof {
                    assert(keys[i as int] == keys[j as int]);
                    lemma_first_dup_found(keys, j as int);
                }
                return Some(j);
            }
            i = i + 1;
        }
        j = j + 1;
    }
    proof {
        lemma_first_dup_none(keys);
    }
    None
}

fn find_entry(t: &Vec<TableEntry>, icon: usize, generation: ScoreGeneration) -> (r: Option<usize>)
    ensures
        match r {
            Some(i) => i < t@.len() && t@[i as int].0 == icon && t@[i as int].1 == generation,
            None => forall|a: int| 0 <= a < t@.len() ==> !(#[trigger] t@[a].0 == icon && t@[a].1 == generation),
        },
{
    let mut i: usize = 0;
    while i < t.len()
        invariant
            0 <= i <= t@.len(),
            forall|a: int| 0 <= a < i ==> !(#[trigger] t@[a].0 == icon && t@[a].1 == generation),
        decreases t@.len() - i,
    {
        if t[i].0 == icon && t[i].1 == generation {
            return Some(i);
        }
        i = i + 1;
    }
    None
}

fn build_table(songs: &Vec<StoreSong>, removed: &Vec<RemovedStoreSong>) -> (t: Vec<TableEntry>)
    requires
        distinct_keys(song_keys_of(songs@)),
        forall|i: int| 0 <= i < songs@.len() ==> song_levels_valid(#[trigger] songs@[i].levels),
        forall|i: int|
            0 <= i < removed@.len() ==> ((#[trigger] removed@[i]).levels matches Some(l) ==> song_levels_valid(
                l.levels,
            )),
    ensures
        t@ == song_table(songs@, removed@),
        table_distinct(t@),
        forall|i: int| 0 <= i < t@.len() ==> song_levels_valid(#[trigger] t@[i].3),
{
    let mut t: Vec<TableEntry> = Vec::new();
    let mut k: usize = 0;
    while k < songs.len()
        invariant
            0 <= k <= songs@.len(),
            distinct_keys(song_keys_of(songs@)),
            forall|i: int| 0 <= i < songs@.len() ==> song_levels_valid(#[trigger] songs@[i].levels),
            t@ == songs@.take(k as int).map_values(|s: StoreSong| song_entry(s)),
        decreases songs@.len() - k,
    {
        let s = &songs[k];
        t.push((s.icon, s.generation, s.version, s.levels));
        proof {
            assert(songs@.take(k + 1).map_values(|s: StoreSong| song_entry(s)) =~= songs@.take(k as int).map_values(
                |s: StoreSong| song_entry(s),
            ).push(song_entry(songs@[k as int])));
        }
        k = k + 1;
    }
    proof {
        assert(songs@.take(songs@.len() as int) =~= songs@);
        assert(removed@.take(0) =~= Seq::<RemovedStoreSong>::empty());
        let keys = song_keys_of(songs@);
        assert forall|i: int, j: int| 0 <= i < j < t@.len() implies !(t@[i].0 == t@[j].0 && t@[i].1 == t@[j].1) by {
            assert(keys[i] != keys[j]);
        }
        assert forall|i: int| 0 <= i < t@.len() implies song_levels_valid(#[trigger] t@[i].3) by {
            assert(t@[i].3 == songs@[i].levels);
        }
    }
    let mut k: usize = 0;
    while k < removed.len()
        invariant
            0 <= k <= removed@.len(),
            t@ == song_table(songs@, removed@.take(k as int)),
            table_distinct(t@),
            forall|i: int| 0 <= i < t@.len() ==> song_levels_valid(#[trigger] t@[i].3),
            forall|i: int|
                0 <= i < removed@.len() ==> ((#[trigger] removed@[i]).levels matches Some(l) ==> song_levels_valid(
                    l.levels,
                )),
        decreases removed@.len() - k,
    {
        proof {
            assert(removed@.take(k + 1).drop_last() =~= removed@.take(k as int));
            assert(removed@.take(k + 1).last() == removed@[k as int]);
        }
        let icon = removed[k].icon;
        match &removed[k].levels {
            None => {},
            Some(l) => {
                let e: TableEntry = (icon, l.generation, l.version, l.levels);
                let ghost t0 = t@;
                let found = find_entry(&t, e.0, e.1);
                match found {
                    Some(i) => {
                        proof {
                            let c = choose|c: int| 0 <= c < t0.len() && t0[c].0 == e.0 && t0[c].1 == e.1;
                            if c != i as int {
                                if c < i {
                                    assert(!(t0[c].0 == t0[i as int].0 && t0[c].1 == t0[i as int].1));
                                } else {
                                    assert(!(t0[i as int].0 == t0[c].0 && t0[i as int].1 == t0[c].1));
                                }
                            }
                        }
                        t.set(i, e);
                        proof {
                            assert(removed@[k as int].levels == Some(*l));
                            assert(t@ == place(t0, e));
                            assert forall|a: int, b: int| 0 <= a < b < t@.len() implies !(t@[a].0 == t@[b].0
                                && t@[a].1 == t@[b].1) by {
                                assert(!(t0[a].0 == t0[b].0 && t0[a].1 == t0[b].1));
                            }
                        }
                    },
                    None => {
                        t.push(e);
                        proof {
                            assert(removed@[k as int].levels == Some(*l));
                            assert(!exists|c: int| 0 <= c < t0.len() && t0[c].0 == e.0 && t0[c].1 == e.1);
                            assert(t@ == place(t0, e));
                            assert forall|a: int, b: int| 0 <= a < b < t@.len() implies !(t@[a].0 == t@[b].0
                                && t@[a].1 == t@[b].1) by {
                                if b == t0.len() {
                                    assert(!(t0[a].0 == e.0 && t0[a].1 == e.1));
                                }
                            }
                        }
                    },
                }
            },
        }
        k = k + 1;
    }
    proof {
        assert(removed@.take(removed@.len() as int) =~= removed@);
    }
    t
}

proof fn lemma_song_charts(e: TableEntry)
    ensures
        song_charts(e).len() == score_levels_list(e.3).len(),
        forall|a: int|
            0 <= a < song_charts(e).len() ==> (#[trigger] song_charts(e)[a]).0.icon == e.0 && song_charts(e)[a].0.generation
                == e.1 && song_charts(e)[a].1 == e.2 && song_charts(e)[a].2 == score_levels_list(e.3)[a].1.value,
        forall|a: int, b: int|
            0 <= a < b < song_charts(e).len() ==> (#[trigger] song_charts(e)[a]).0 != (#[trigger] song_charts(e)[b]).0,
{
    let l = score_levels_list(e.3);
    let c = song_charts(e);
    assert(l[0].0 == ScoreDifficulty::Basic);
    assert(l[1].0 == ScoreDifficulty::Advanced);
    assert(l[2].0 == ScoreDifficulty::Expert);
    assert(l[3].0 == ScoreDifficulty::Master);
    assert(l.len() == 5 ==> l[4].0 == ScoreDifficulty::ReMaster);
    assert forall|a: int, b: int| 0 <= a < b < c.len() implies (#[trigger] c[a]).0 != (#[trigger] c[b]).0 by {
        assert(c[a].0.difficulty == l[a].0);
        assert(c[b].0.difficulty == l[b].0);
    }
}

/// The charts of a table of distinct songs have distinct keys, and each
/// belongs to one of the songs.
proof fn lemma_table_charts(t: Seq<TableEntry>)
    requires
        table_distinct(t),
    ensures
        forall|a: int| 0 <= a < table_charts(t).len() ==> exists|i: int|
            0 <= i < t.len() && t[i].0 == (#[trigger] table_charts(t)[a]).0.icon && t[i].1 == table_charts(t)[a].0.generation,
        forall|a: int, b: int|
            0 <= a < b < table_charts(t).len() ==> (#[trigger] table_charts(t)[a]).0 != (#[trigger] table_charts(t)[b]).0,
    decreases t.len(),
{
    if t.len() > 0 {
        let p = t.drop_last();
        assert(table_distinct(p)) by {
            assert forall|i: int, j: int| 0 <= i < j < p.len() implies !(p[i].0 == p[j].0 && p[i].1 == p[j].1) by {
                assert(p[i] == t[i] && p[j] == t[j]);
            }
        }
        lemma_table_charts(p);
        lemma_song_charts(t.last());
        let pc = table_charts(p);
        let sc = song_charts(t.last());
        let all = table_charts(t);
        assert(all == pc + sc);
        assert forall|a: int| 0 <= a < all.len() implies exists|i: int|
            0 <= i < t.len() && t[i].0 == (#[trigger] all[a]).0.icon && t[i].1 == all[a].0.generation by {
            if a < pc.len() {
                assert(all[a] == pc[a]);
                let i = choose|i: int| 0 <= i < p.len() && p[i].0 == pc[a].0.icon && p[i].1 == pc[a].0.generation;
                assert(t[i] == p[i]);
            } else {
                assert(all[a] == sc[a - pc.len()]);
                assert(t[t.len() - 1].0 == all[a].0.icon);
            }
        }
        assert forall|a: int, b: int| 0 <= a < b < all.len() implies (#[trigger] all[a]).0 != (#[trigger] all[b]).0 by {
            if b < pc.len() {
                assert(all[a] == pc[a] && all[b] == pc[b]);
            } else if a >= pc.len() {
                assert(all[a] == sc[a - pc.len()] && all[b] == sc[b - pc.len()]);
            } else {
                assert(all[a] == pc[a] && all[b] == sc[b - pc.len()]);
                let i = choose|i: int| 0 <= i < p.len() && p[i].0 == pc[a].0.icon && p[i].1 == pc[a].0.generation;
                assert(!(t[i].0 == t[t.len() - 1].0 && t[i].1 == t[t.len() - 1].1));
            }
        }
    }
}

fn level_candidates_vec(level: InternalScoreLevel) -> (r: (Vec<ScoreConstant>, String))
    requires
        level_ok(level),
    ensures
        r.0@ == level_candidates(level),
        r.1@ == level_reason(level),
{
    let mut text = String::new();
    match level {
        InternalScoreLevel::Unknown(l) => {
            let c = l.score_constant_candidates();
            proof {
                let lc = level_constants(l);
                let lo = constant_range(l.level, l.plus, true).0;
                assert forall|i: int| 0 <= i < c@.len() implies #[trigger] c@[i] == lc[i] by {
                    let v = lo + i;
                    lemma_constant_exists(v);
                    let w = constant_with_value(v as u8);
                    lemma_constant_eq(c@[i], w);
                }
                assert(c@ =~= lc);
            }
            push_str(&mut text, "because this score's level is ");
            let lt = l.to_string();
            push_str(&mut text, lt.as_str());
            (c, text)
        },
        InternalScoreLevel::Known(c) => {
            let v = vec![c];
            push_str(&mut text, "as it is already known");
            proof {
                assert(v@ =~= seq![c]);
            }
            (v, text)
        },
    }
}

impl ScoreConstantsStore {
    /// Starts from the levels of the table, with the removed songs' levels
    /// in place of or after those of the same cover art and generation.
    /// Fails when two removed songs share a cover art, or two songs share a
    /// cover art and a generation.
    pub fn new(songs: &Vec<StoreSong>, removed: &Vec<RemovedStoreSong>) -> (r: Result<
        ScoreConstantsStore,
        StoreError,
    >)
        requires
            forall|i: int| 0 <= i < songs@.len() ==> song_levels_valid(#[trigger] songs@[i].levels),
            forall|i: int|
                0 <= i < removed@.len() ==> ((#[trigger] removed@[i]).levels matches Some(l) ==> song_levels_valid(
                    l.levels,
                )),
        ensures
            match first_dup(removed_icons_of(removed@)) {
                Some(j) => r == Err::<ScoreConstantsStore, StoreError>(StoreError::DuplicateRemoved(removed@[j].icon)),
                None => match first_dup(song_keys_of(songs@)) {
                    Some(j) => r == Err::<ScoreConstantsStore, StoreError>(
                        StoreError::DuplicateSong(songs@[j].icon, songs@[j].generation),
                    ),
                    None => r matches Ok(st) && {
                        let cs = table_charts(song_table(songs@, removed@));
                        &&& st.wf()
                        &&& st.entries_spec() == chart_entries(cs)
                        &&& st.events_spec() == chart_events(cs)
                        &&& st.removed_spec() == removed_icons_of(removed@)
                        &&& st.names_spec() == names_of(songs@, removed@)
                        &&& st.show_details_spec() == PrintResult::Summarize
                    },
                },
            },
    {
        match find_removed_dup(removed) {
            Some(j) => {
                return Err(StoreError::DuplicateRemoved(removed[j].icon));
            },
            None => {},
        }
        match find_song_dup(songs) {
            Some(j) => {
                return Err(StoreError::DuplicateSong(songs[j].icon, songs[j].generation));
            },
            None => {},
        }
        let t = build_table(songs, removed);
        let mut constants: Vec<ScoreConstantsEntry> = Vec::new();
        let mut events: Vec<(ScoreKey, String)> = Vec::new();
        let mut k: usize = 0;
        proof {
            assert(t@.take(0) =~= Seq::<TableEntry>::empty());
            assert(constants@.map_values(|e: ScoreConstantsEntry| entry_view(e)) =~= chart_entries(Seq::empty()));
            assert(events@.map_values(|e: (ScoreKey, String)| (e.0, e.1@)) =~= chart_events(Seq::empty()));
        }
        while k < t.len()
            invariant
                0 <= k <= t@.len(),
                forall|i: int| 0 <= i < t@.len() ==> song_levels_valid(#[trigger] t@[i].3),
                constants@.map_values(|e: ScoreConstantsEntry| entry_view(e)) == chart_entries(
                    table_charts(t@.take(k as int)),
                ),
                events@.map_values(|e: (ScoreKey, String)| (e.0, e.1@)) == chart_events(
                    table_charts(t@.take(k as int)),
                ),
            decreases t@.len() - k,
        {
            let (icon, generation, version, levels) = t[k];
            let lv = levels.iter();
            let ghost pre = table_charts(t@.take(k as int));
            let ghost sc = song_charts(t@[k as int]);
            proof {
                lemma_song_charts(t@[k as int]);
                assert(pre + sc.take(0) =~= pre);
            }
            let mut m: usize = 0;
            while m < lv.len()
                invariant
                    0 <= m <= lv@.len(),
                    lv@ == score_levels_list(levels),
                    song_levels_valid(levels),
                    t@[k as int] == (icon, generation, version, levels),
                    sc == song_charts(t@[k as int]),
                    sc.len() == lv@.len(),
                    forall|a: int|
                        0 <= a < sc.len() ==> (#[trigger] sc[a]).0 == (ScoreKey {
                            icon,
                            generation,
                            difficulty: lv@[a].0,
                        }) && sc[a].1 == version && sc[a].2 == lv@[a].1.value,
                    constants@.map_values(|e: ScoreConstantsEntry| entry_view(e)) == chart_entries(
                        pre + sc.take(m as int),
                    ),
                    events@.map_values(|e: (ScoreKey, String)| (e.0, e.1@)) == chart_events(
                        pre + sc.take(m as int),
                    ),
                decreases lv@.len() - m,
            {
                let (difficulty, entry) = lv[m];
                let key = ScoreKey { icon, generation, difficulty };
                let level = entry.value;
                proof {
                    assert(level_ok(score_levels_list(levels)[m as int].1.value));
                }
                let (cands, reason) = level_candidates_vec(level);
                let text = reason_string(&cands, reason.as_str());
                let idx = constants.len();
                let mut reasons: Vec<usize> = Vec::new();
                reasons.push(idx);
                let ghost cs0 = pre + sc.take(m as int);
                let ghost c0 = constants@;
                let ghost e0 = events@;
                proof {
                    assert(constants@.map_values(|e: ScoreConstantsEntry| entry_view(e)).len() == constants@.len());
                    assert(cs0.len() == idx);
                    assert(events@.map_values(|e: (ScoreKey, String)| (e.0, e.1@)).len() == events@.len());
                    assert(events@.len() == idx);
                    assert(reasons@ =~= seq![idx]);
                }
                let new_entry = ScoreConstantsEntry { key, version, candidates: cands, reasons };
                constants.push(new_entry);
                events.push((key, text));
                proof {
                    let cs1 = pre + sc.take(m + 1);
                    assert(cs1 =~= cs0.push(sc[m as int]));
                    assert(sc[m as int] == (key, version, level));
                    let cm = constants@.map_values(|e: ScoreConstantsEntry| entry_view(e));
                    let c0m = c0.map_values(|e: ScoreConstantsEntry| entry_view(e));
                    assert forall|i: int| 0 <= i < cs1.len() implies #[trigger] cm[i] == chart_entries(cs1)[i] by {
                        if i < idx {
                            assert(constants@[i] == c0[i]);
                            assert(cm[i] == c0m[i]);
                            assert(cs1[i] == cs0[i]);
                        } else {
                            assert(constants@[i] == new_entry);
                        }
                    }
                    assert(cm =~= chart_entries(cs1));
                    let em = events@.map_values(|e: (ScoreKey, String)| (e.0, e.1@));
                    let e0m = e0.map_values(|e: (ScoreKey, String)| (e.0, e.1@));
                    assert forall|i: int| 0 <= i < cs1.len() implies #[trigger] em[i] == chart_events(cs1)[i] by {
                        if i < idx {
                            assert(events@[i] == e0[i]);
                            assert(em[i] == e0m[i]);
                            assert(cs1[i] == cs0[i]);
                        }
                    }
                    assert(em =~= chart_events(cs1));
                }
                m = m + 1;
            }
            proof {
                assert(sc.take(sc.len() as int) =~= sc);
                assert(t@.take(k + 1).drop_last() =~= t@.take(k as int));
                assert(t@.take(k + 1).last() == t@[k as int]);
                assert(table_charts(t@.take(k + 1)) == pre + sc);
            }
            k = k + 1;
        }
        let mut removed_icons: Vec<usize> = Vec::new();
        let mut song_names: Vec<(String, usize)> = Vec::new();
        let mut k: usize = 0;
        while k < songs.len()
            invariant
                0 <= k <= songs@.len(),
                song_names@.map_values(|e: (String, usize)| (e.0@, e.1)) == songs@.take(k as int).map_values(
                    |s: StoreSong| (s.name@, s.icon),
                ),
            decreases songs@.len() - k,
        {
            let ghost n0 = song_names@;
            proof {
                assert(n0.map_values(|e: (String, usize)| (e.0@, e.1)).len() == n0.len());
                assert(n0.len() == k);
            }
            let name = songs[k].name.clone();
            song_names.push((name, songs[k].icon));
            proof {
                let nm = song_names@.map_values(|e: (String, usize)| (e.0@, e.1));
                let n0m = n0.map_values(|e: (String, usize)| (e.0@, e.1));
                let target = songs@.take(k + 1).map_values(|s: StoreSong| (s.name@, s.icon));
                assert forall|i: int| 0 <= i < k + 1 implies #[trigger] nm[i] == target[i] by {
                    if i < k {
                        assert(song_names@[i] == n0[i]);
                        assert(nm[i] == n0m[i]);
                    }
                }
                assert(nm =~= target);
            }
            k = k + 1;
        }
        let ghost first_names = song_names@.map_values(|e: (String, usize)| (e.0@, e.1));
        let mut k: usize = 0;
        while k < removed.len()
            invariant
                0 <= k <= removed@.len(),
                first_names.len() == songs@.len(),
                song_names@.map_values(|e: (String, usize)| (e.0@, e.1)) == first_names + removed@.take(
                    k as int,
                ).map_values(|r: RemovedStoreSong| (r.name@, r.icon)),
                removed_icons@ == removed_icons_of(removed@.take(k as int)),
            decreases removed@.len() - k,
        {
            let ghost n0 = song_names@;
            proof {
                assert(n0.map_values(|e: (String, usize)| (e.0@, e.1)).len() == n0.len());
                assert(n0.len() == first_names.len() + k);
            }
            let name = removed[k].name.clone();
            song_names.push((name, removed[k].icon));
            removed_icons.push(removed[k].icon);
            proof {
                let nm = song_names@.map_values(|e: (String, usize)| (e.0@, e.1));
                let n0m = n0.map_values(|e: (String, usize)| (e.0@, e.1));
                let target = first_names + removed@.take(k + 1).map_values(|r: RemovedStoreSong| (r.name@, r.icon));
                assert forall|i: int| 0 <= i < target.len() implies #[trigger] nm[i] == target[i] by {
                    if i < n0.len() {
                        assert(song_names@[i] == n0[i]);
                        assert(nm[i] == n0m[i]);
                    }
                }
                assert(nm =~= target);
                assert(removed_icons@ =~= removed_icons_of(removed@.take(k + 1)));
            }
            k = k + 1;
        }
        let st = ScoreConstantsStore {
            events,
            constants,
            removed_icons,
            song_names,
            show_details: PrintResult::Summarize,
        };
        proof {
            assert(t@.take(t@.len() as int) =~= t@);
            assert(songs@.take(songs@.len() as int) =~= songs@);
            assert(removed@.take(removed@.len() as int) =~= removed@);
            let cs = table_charts(t@);
            lemma_table_charts(t@);
            assert(st.entries_spec() == chart_entries(cs));
            assert(st.events_spec() == chart_events(cs));
            assert(st.names_spec() =~= names_of(songs@, removed@));
            assert forall|i: int, j: int| 0 <= i < j < st.entries_spec().len() implies #[trigger] st.entries_spec()[i].0
                != #[trigger] st.entries_spec()[j].0 by {
                assert(st.entries_spec()[i].0 == cs[i].0);
                assert(st.entries_spec()[j].0 == cs[j].0);
            }
            assert forall|i: int, j: int|
                0 <= i < st.entries_spec().len() && 0 <= j < st.entries_spec()[i].3.len()
                implies #[trigger] st.entries_spec()[i].3[j] < st.events_spec().len() by {
                assert(st.entries_spec()[i] == chart_entries(cs)[i]);
            }
        }
        Ok(st)
    }
}

/// A play record as the store reads it.
#[derive(Clone, Copy, PartialEq, Eq, Structural, Debug)]
pub struct StoreRecord {
    pub key: ScoreKey,
    pub time: PlayTime,
    pub achievement: AchievementValue,
    pub rank: AchievementRank,
    pub rating_delta: i16,
}

/// A record played at `t` counts for the version that runs from `start` to
/// `end` (without end when `end` is `None`), or at any time with `ignore_time`.
pub open spec fn counts_at(ignore_time: bool, start: PlayTime, end: Option<PlayTime>, t: PlayTime) -> bool {
    ignore_time || (start.seconds() <= t.seconds() && match end {
        Some(e) => t.seconds() < e.seconds(),
        None => true,
    })
}

/// What reading the records does to the charts and events, with the list of
/// rated charts (by position) and the error that stopped the reading.
pub open spec fn store_delta_fold(
    es: Seq<EntryView>,
    events: Seq<(ScoreKey, Seq<char>)>,
    removed: Seq<usize>,
    records: Seq<StoreRecord>,
    version: MaimaiVersion,
    start: PlayTime,
    end: Option<PlayTime>,
    ignore_time: bool,
    user: Option<Seq<char>>,
    analyze_old_songs: bool,
) -> (Seq<EntryView>, Seq<(ScoreKey, Seq<char>)>, Map<usize, i16>, Option<StoreError>)
    decreases records.len(),
{
    if records.len() == 0 {
        (es, events, Map::empty(), None)
    } else {
        let prev = store_delta_fold(
            es,
            events,
            removed,
            records.drop_last(),
            version,
            start,
            end,
            ignore_time,
            user,
            analyze_old_songs,
        );
        let r = records.last();
        let max_count: nat = if analyze_old_songs { 35 } else { 15 };
        if prev.3 is Some || !counts_at(ignore_time, start, end, r.time) || r.key.difficulty == ScoreDifficulty::Utage {
            prev
        } else {
            match key_index(prev.0, r.key) {
                None => if removed.contains(r.key.icon) {
                    prev
                } else {
                    (prev.0, prev.1, prev.2, Some(StoreError::NotFound(r.key)))
                },
                Some(i) => if !((analyze_old_songs != (prev.0[i].1 == version)) && r.rating_delta > 0) {
                    prev
                } else if !top_step_fits(prev.2, max_count, i as usize, r.rating_delta) {
                    (prev.0, prev.1, prev.2, Some(StoreError::RatingOverflow(r.key)))
                } else {
                    let step = top_step(prev.2, max_count, i as usize, r.rating_delta);
                    let rating = step.1 as i16;
                    let o = prev.0[i].2;
                    let n = kept_by(o, |c: ScoreConstant| rating_matches(c.value() as int, r.achievement, rating));
                    let nar = narrowed(
                        prev.0,
                        prev.1,
                        i,
                        n,
                        delta_reason_text(r.time, r.achievement, user, rating),
                    );
                    let err = if n.len() < o.len() && n.len() == 0 {
                        Some(StoreError::NoMoreCandidates(r.key))
                    } else {
                        None
                    };
                    (nar.0, nar.1, step.0, err)
                },
            }
        }
    }
}

proof fn lemma_narrowed_keys(
    es: Seq<EntryView>,
    events: Seq<(ScoreKey, Seq<char>)>,
    i: int,
    n: Seq<ScoreConstant>,
    reason: Seq<char>,
)
    requires
        0 <= i < es.len(),
        forall|a: int, b: int| 0 <= a < b < es.len() ==> #[trigger] es[a].0 != #[trigger] es[b].0,
    ensures
        narrowed(es, events, i, n, reason).0.len() == es.len(),
        forall|j: int|
            0 <= j < es.len() ==> (#[trigger] narrowed(es, events, i, n, reason).0[j]).0 == es[j].0
                && narrowed(es, events, i, n, reason).0[j].1 == es[j].1,
        key_index(narrowed(es, events, i, n, reason).0, es[i].0) == key_index(es, es[i].0),
        forall|k: ScoreKey| #[trigger] key_index(narrowed(es, events, i, n, reason).0, k) == key_index(es, k),
{
    let es2 = narrowed(es, events, i, n, reason).0;
    assert forall|j: int| 0 <= j < es.len() implies (#[trigger] es2[j]).0 == es[j].0 by {}
    assert forall|k: ScoreKey| #[trigger] key_index(es2, k) == key_index(es, k) by {
        if exists|j: int| 0 <= j < es.len() && es[j].0 == k {
            let j0 = choose|j: int| 0 <= j < es.len() && es[j].0 == k;
            assert(es2[j0].0 == k);
            let j1 = choose|j: int| 0 <= j < es2.len() && es2[j].0 == k;
            assert(es[j1].0 == k);
            if j0 != j1 {
                if j0 < j1 {
                    assert(es[j0].0 != es[j1].0);
                } else {
                    assert(es[j1].0 != es[j0].0);
                }
            }
        } else {
            assert forall|j: int| 0 <= j < es2.len() implies es2[j].0 != k by {
                assert(es2[j].0 == es[j].0);
            }
        }
    }
}

impl ScoreConstantsStore {
    /// Learns single-song ratings from the rating changes of records of the
    /// version (from `start` to `end`, or of any time with `ignore_time`):
    /// a record of a chart of the songs under study (new ones, or old ones
    /// with `analyze_old_songs`) whose rating went up shows the new rating of
    /// that chart in the list of rated charts. Records of removed songs and
    /// of utage charts are passed over.
    pub fn determine_by_delta(
        &mut self,
        version: MaimaiVersion,
        start: PlayTime,
        end: Option<PlayTime>,
        ignore_time: bool,
        user: Option<&str>,
        records: &Vec<StoreRecord>,
        analyze_old_songs: bool,
    ) -> (r: Result<(), StoreError>)
        requires
            old(self).wf(),
        ensures
            final(self).wf(),
            final(self).removed_spec() == old(self).removed_spec(),
            final(self).names_spec() == old(self).names_spec(),
            final(self).show_details_spec() == old(self).show_details_spec(),
            ({
                let f = store_delta_fold(
                    old(self).entries_spec(),
                    old(self).events_spec(),
                    old(self).removed_spec(),
                    records@,
                    version,
                    start,
                    end,
                    ignore_time,
                    match user {
                        Some(u) => Some(u@),
                        None => None,
                    },
                    analyze_old_songs,
                );
                &&& final(self).entries_spec() == f.0
                &&& final(self).events_spec() == f.1
                &&& match f.3 {
                    Some(e) => r == Err::<(), StoreError>(e),
                    None => r is Ok,
                }
            }),
    {
        let ghost u = match user {
            Some(x) => Some(x@),
            None => None::<Seq<char>>,
        };
        let ghost es0 = self.entries_spec();
        let ghost ev0 = self.events_spec();
        let ghost rm = self.removed_spec();
        let max_count: usize = if analyze_old_songs { 35 } else { 15 };
        let mut top = TopRatings::new(max_count);
        let mut i: usize = 0;
        proof {
            assert(records@.take(0) =~= Seq::<StoreRecord>::empty());
            assert(top.view() =~= Map::<usize, i16>::empty());
        }
        while i < records.len()
            invariant
                0 <= i <= records@.len(),
                self.wf(),
                self.removed_spec() == rm,
                self.names_spec() == old(self).names_spec(),
                self.show_details_spec() == old(self).show_details_spec(),
                rm == old(self).removed_spec(),
                es0 == old(self).entries_spec(),
                ev0 == old(self).events_spec(),
                u == (match user {
                    Some(x) => Some(x@),
                    None => None::<Seq<char>>,
                }),
                top.wf(),
                top.max_count_spec() == (if analyze_old_songs { 35nat } else { 15nat }),
                ({
                    let f = store_delta_fold(
                        es0,
                        ev0,
                        rm,
                        records@.take(i as int),
                        version,
                        start,
                        end,
                        ignore_time,
                        u,
                        analyze_old_songs,
                    );
                    &&& f.0 == self.entries_spec()
                    &&& f.1 == self.events_spec()
                    &&& f.2 == top.view()
                    &&& f.3 is None
                }),
            decreases records@.len() - i,
        {
            proof {
                assert(records@.take(i + 1).drop_last() =~= records@.take(i as int));
                assert(records@.take(i + 1).last() == records@[i as int]);
            }
            let rec = records[i];
            let t = rec.time.get();
            let counts = ignore_time || (start.get() <= t && match end {
                Some(e) => t < e.get(),
                None => true,
            });
            let utage = match rec.key.difficulty {
                ScoreDifficulty::Utage => true,
                _ => false,
            };
            if counts && !utage {
                let found = match self.get(rec.key) {
                    Err(e) => {
                        proof {
                            lemma_fold_stops(es0, ev0, rm, records@, version, start, end, ignore_time, u, analyze_old_songs, i + 1);
                        }
                        return Err(e);
                    },
                    Ok(x) => x,
                };
                match found {
                    None => {},
                    Some(entry) => {
                        let sv = entry.version;
                        let new_song = sv == version;
                        if (analyze_old_songs != new_song) && rec.rating_delta > 0 {
                            let k = self.find(rec.key).unwrap();
                            if !top.step_fits(k, rec.rating_delta) {
                                proof {
                                    lemma_fold_stops(es0, ev0, rm, records@, version, start, end, ignore_time, u, analyze_old_songs, i + 1);
                                }
                                return Err(StoreError::RatingOverflow(rec.key));
                            }
                            let rating = top.apply(k, rec.rating_delta);
                            let ghost es_before = self.entries_spec();
                            let ghost ev_before = self.events_spec();
                            let res = self.register_single_song_rating(rec.key, user, rec.achievement, rating, rec.time);
                            proof {
                                let kk = k as int;
                                lemma_narrowed_keys(
                                    es_before,
                                    ev_before,
                                    kk,
                                    kept_by(es_before[kk].2, |c: ScoreConstant| rating_matches(c.value() as int, rec.achievement, rating)),
                                    delta_reason_text(rec.time, rec.achievement, u, rating),
                                );
                            }
                            match res {
                                Ok(()) => {},
                                Err(e) => {
                                    proof {
                                        lemma_fold_stops(es0, ev0, rm, records@, version, start, end, ignore_time, u, analyze_old_songs, i + 1);
                                    }
                                    return Err(e);
                                },
                            }
                        }
                    },
                }
            }
            i = i + 1;
        }
        proof {
            assert(records@.take(records@.len() as int) =~= records@);
        }
        Ok(())
    }
}

/// Once the reading of the first records stops with an error, the reading
/// of all records stops with the same error and state.
proof fn lemma_fold_stops(
    es: Seq<EntryView>,
    events: Seq<(ScoreKey, Seq<char>)>,
    removed: Seq<usize>,
    records: Seq<StoreRecord>,
    version: MaimaiVersion,
    start: PlayTime,
    end: Option<PlayTime>,
    ignore_time: bool,
    user: Option<Seq<char>>,
    analyze_old_songs: bool,
    i: int,
)
    requires
        0 <= i <= records.len(),
        store_delta_fold(es, events, removed, records.take(i), version, start, end, ignore_time, user, analyze_old_songs).3 is Some,
    ensures
        store_delta_fold(es, events, removed, records, version, start, end, ignore_time, user, analyze_old_songs)
            == store_delta_fold(es, events, removed, records.take(i), version, start, end, ignore_time, user, analyze_old_songs),
    decreases records.len() - i,
{
    if i < records.len() {
        let len = records.len();
        assert(records.drop_last() =~= records.take(len - 1));
        if i == len - 1 {
            assert(records.take(i) =~= records.drop_last());
        } else {
            assert(records.drop_last().take(i) =~= records.take(i));
            lemma_fold_stops(es, events, removed, records.drop_last(), version, start, end, ignore_time, user, analyze_old_songs, i);
        }
    } else {
        assert(records.take(i) =~= records);
    }
}

/// Every score constant, in increasing order.
pub open spec fn all_constants() -> Seq<ScoreConstant> {
    Seq::new(141, |i: int| constant_with_value((10 + i) as u8))
}

/// The single-song rating of constant `c` at achievement `a`.
pub open spec fn rating_of(c: ScoreConstant, a: AchievementValue) -> u16 {
    (rating_precise_spec(c.value(), a.spec_get(), rank_coef_spec(a.spec_get())) / 100_000_000) as u16
}

/// `(r1, a1) <= (r2, a2)` for (rating, achievement) pairs, rating first.
pub open spec fn pair_le(p: (u16, u32), q: (u16, u32)) -> bool {
    p.0 < q.0 || (p.0 == q.0 && p.1 <= q.1)
}

/// The constants that keep a record of achievement `a` out of a rating
/// target list whose lowest entry is `min_pair`: its (rating, achievement)
/// pair is at most `min_pair`, or, for an SSS+ record, at most `border_pair`.
pub open spec fn below_list(min_pair: (u16, u32), border_pair: (u16, u32), a: AchievementValue, sssplus: bool) -> Seq<
    ScoreConstant,
> {
    kept_by(
        all_constants(),
        |c: ScoreConstant|
            pair_le((rating_of(c, a), a.spec_get()), min_pair) || (sssplus && pair_le(
                (rating_of(c, a), a.spec_get()),
                border_pair,
            )),
    )
}

/// The charts of a rating target list: new targets, old targets, new
/// candidates, old candidates.
pub open spec fn list_entries(list: RatingTargetList) -> Seq<RatingTargetEntry> {
    list.target_new@ + list.target_old@ + list.candidates_new@ + list.candidates_old@
}

/// The keys of the charts of a list; none when a name is shared by songs;
/// an error for an unknown name (the first of these in order decides).
pub open spec fn contained_fold(names: Seq<(Seq<char>, usize)>, es: Seq<RatingTargetEntry>) -> Result<
    Option<Seq<ScoreKey>>,
    StoreError,
>
    decreases es.len(),
{
    if es.len() == 0 {
        Ok(Some(Seq::empty()))
    } else {
        match contained_fold(names, es.drop_last()) {
            Ok(Some(ks)) => {
                let e = es.last();
                match key_from_names(names, e.song_name.0@, e.score_metadata.generation, e.score_metadata.difficulty) {
                    KeyFromTargetEntry::NotFound => Err(StoreError::UnknownSong),
                    KeyFromTargetEntry::Unique(k) => Ok(Some(ks.push(k))),
                    KeyFromTargetEntry::Multiple => Ok(None),
                }
            },
            other => other,
        }
    }
}

/// For each chart not in `contained`, the first record with its best
/// achievement, in the order the charts first appear.
pub open spec fn best_of(rs: Seq<StoreRecord>, contained: Seq<ScoreKey>) -> Seq<StoreRecord>
    decreases rs.len(),
{
    if rs.len() == 0 {
        Seq::empty()
    } else {
        let acc = best_of(rs.drop_last(), contained);
        let r = rs.last();
        if contained.contains(r.key) {
            acc
        } else if exists|p: int| 0 <= p < acc.len() && acc[p].key == r.key {
            let p = choose|p: int| 0 <= p < acc.len() && acc[p].key == r.key;
            if acc[p].achievement.spec_get() < r.achievement.spec_get() {
                acc.update(p, r)
            } else {
                acc
            }
        } else {
            acc.push(r)
        }
    }
}

/// The first rating target list recorded at or after `t`.
pub open spec fn target_of(targets: Seq<(PlayTime, RatingTargetList)>, t: PlayTime) -> Option<int> {
    if exists|j: int| 0 <= j < targets.len() && targets[j].0.seconds() >= t.seconds() {
        Some(
            choose|j: int|
                0 <= j < targets.len() && targets[j].0.seconds() >= t.seconds() && forall|m: int|
                    0 <= m < j ==> (#[trigger] targets[m]).0.seconds() < t.seconds(),
        )
    } else {
        None
    }
}

/// The records that count, each with its rating target list.
pub open spec fn paired_records(
    rs: Seq<StoreRecord>,
    targets: Seq<(PlayTime, RatingTargetList)>,
    ignore_time: bool,
    start: PlayTime,
    end: Option<PlayTime>,
) -> Seq<(StoreRecord, usize)>
    decreases rs.len(),
{
    if rs.len() == 0 {
        Seq::empty()
    } else {
        let prev = paired_records(rs.drop_last(), targets, ignore_time, start, end);
        let r = rs.last();
        if !counts_at(ignore_time, start, end, r.time) || r.key.difficulty == ScoreDifficulty::Utage {
            prev
        } else {
            match target_of(targets, r.time) {
                None => prev,
                Some(j) => prev.push((r, j as usize)),
            }
        }
    }
}

/// Runs of consecutive records with the same rating target list.
pub open spec fn group_runs(ps: Seq<(StoreRecord, usize)>) -> Seq<(usize, Seq<StoreRecord>)>
    decreases ps.len(),
{
    if ps.len() == 0 {
        Seq::empty()
    } else {
        let g = group_runs(ps.drop_last());
        let p = ps.last();
        if g.len() > 0 && g.last().0 == p.1 {
            g.update(g.len() - 1, (p.1, g.last().1.push(p.0)))
        } else {
            g.push((p.1, seq![p.0]))
        }
    }
}

/// The state of the store as the reading goes: charts, events, error.
pub type StoreState = (Seq<EntryView>, Seq<(ScoreKey, Seq<char>)>, Option<StoreError>);

/// The best (rating, achievement) pair of an entry of a list, over the
/// candidates left for its chart.
pub open spec fn entry_pair(names: Seq<(Seq<char>, usize)>, es: Seq<EntryView>, removed: Seq<usize>, e: RatingTargetEntry) -> Result<
    (u16, u32),
    StoreError,
> {
    match key_from_names(names, e.song_name.0@, e.score_metadata.generation, e.score_metadata.difficulty) {
        KeyFromTargetEntry::Unique(k) => match key_index(es, k) {
            Some(i) => if es[i].2.len() == 0 {
                Err(StoreError::NoMoreCandidates(k))
            } else {
                Ok((max_rating(es[i].2, e.achievement), e.achievement.spec_get()))
            },
            None => if removed.contains(k.icon) {
                Err(StoreError::Removed(k))
            } else {
                Err(StoreError::NotFound(k))
            },
        },
        _ => Err(StoreError::UnknownSong),
    }
}

/// The highest single-song rating at achievement `a` over constants `s`.
pub open spec fn max_rating(s: Seq<ScoreConstant>, a: AchievementValue) -> u16
    decreases s.len(),
{
    if s.len() == 0 {
        0
    } else {
        let m = max_rating(s.drop_last(), a);
        let x = rating_of(s.last(), a);
        if x > m {
            x
        } else {
            m
        }
    }
}

/// "(RatingValue(300), AchievementValue(1005000))" for that pair.
pub open spec fn pair_debug_text(p: (u16, u32)) -> Seq<char> {
    "(RatingValue("@ + dec(p.0 as nat) + "), AchievementValue("@ + dec(p.1 as nat) + "))"@
}

/// Why a record missing from a list narrows the constants of its chart.
pub open spec fn not_in_list_text(
    r: StoreRecord,
    user: Option<Seq<char>>,
    target_time: PlayTime,
    bound: (u16, u32),
) -> Seq<char> {
    "because record played at "@ + time_stamp_text(r.time.seconds()) + " achieving "@ + achievement_text(r.achievement)
        + played_by_text(user) + " is not in list at "@ + time_stamp_text(target_time.seconds()) + ", so it's below "@
        + pair_debug_text(bound)
}

/// What the best record `r` of a chart missing from the list at
/// `target_time` does.
pub open spec fn best_step(
    st: StoreState,
    names: Seq<(Seq<char>, usize)>,
    removed: Seq<usize>,
    version: MaimaiVersion,
    target_time: PlayTime,
    list: RatingTargetList,
    user: Option<Seq<char>>,
    r: StoreRecord,
) -> StoreState {
    if st.2 is Some {
        st
    } else {
        match key_index(st.0, r.key) {
            None => if removed.contains(r.key.icon) {
                st
            } else {
                (st.0, st.1, Some(StoreError::NotFound(r.key)))
            },
            Some(i) => {
                let new_song = st.0[i].1 == version;
                let targets = if new_song { list.target_new@ } else { list.target_old@ };
                let cands = if new_song { list.candidates_new@ } else { list.candidates_old@ };
                if targets.len() == 0 {
                    (st.0, st.1, Some(StoreError::IncompleteList))
                } else {
                    let border = targets.last();
                    let min = if cands.len() > 0 { cands.last() } else { targets.last() };
                    match entry_pair(names, st.0, removed, border) {
                        Err(e) => (st.0, st.1, Some(e)),
                        Ok(bp) => match entry_pair(names, st.0, removed, min) {
                            Err(e) => (st.0, st.1, Some(e)),
                            Ok(mp) => {
                                let sss = r.rank == AchievementRank::SSSPlus;
                                let new = below_list(mp, bp, r.achievement, sss);
                                let o = st.0[i].2;
                                let n = kept_by(o, |c: ScoreConstant| new.contains(c));
                                let nar = narrowed(
                                    st.0,
                                    st.1,
                                    i,
                                    n,
                                    not_in_list_text(r, user, target_time, if sss { bp } else { mp }),
                                );
                                (nar.0, nar.1, if n.len() < o.len() && n.len() == 0 {
                                    Some(StoreError::NoMoreCandidates(r.key))
                                } else {
                                    None
                                })
                            },
                        },
                    }
                }
            },
        }
    }
}

/// The best records, one after another.
pub open spec fn bests_fold(
    st: StoreState,
    names: Seq<(Seq<char>, usize)>,
    removed: Seq<usize>,
    version: MaimaiVersion,
    target_time: PlayTime,
    list: RatingTargetList,
    user: Option<Seq<char>>,
    bests: Seq<StoreRecord>,
) -> StoreState
    decreases bests.len(),
{
    if bests.len() == 0 {
        st
    } else {
        best_step(
            bests_fold(st, names, removed, version, target_time, list, user, bests.drop_last()),
            names,
            removed,
            version,
            target_time,
            list,
            user,
            bests.last(),
        )
    }
}

/// One group of records that share a rating target list.
pub open spec fn group_step(
    st: StoreState,
    names: Seq<(Seq<char>, usize)>,
    removed: Seq<usize>,
    version: MaimaiVersion,
    targets: Seq<(PlayTime, RatingTargetList)>,
    user: Option<Seq<char>>,
    g: (usize, Seq<StoreRecord>),
) -> StoreState {
    if st.2 is Some {
        st
    } else {
        let (target_time, list) = targets[g.0 as int];
        match contained_fold(names, list_entries(list)) {
            Err(e) => (st.0, st.1, Some(e)),
            Ok(None) => st,
            Ok(Some(ks)) => bests_fold(st, names, removed, version, target_time, list, user, best_of(g.1, ks)),
        }
    }
}

pub open spec fn groups_fold(
    st: StoreState,
    names: Seq<(Seq<char>, usize)>,
    removed: Seq<usize>,
    version: MaimaiVersion,
    targets: Seq<(PlayTime, RatingTargetList)>,
    user: Option<Seq<char>>,
    gs: Seq<(usize, Seq<StoreRecord>)>,
) -> StoreState
    decreases gs.len(),
{
    if gs.len() == 0 {
        st
    } else {
        group_step(
            groups_fold(st, names, removed, version, targets, user, gs.drop_last()),
            names,
            removed,
            version,
            targets,
            user,
            gs.last(),
        )
    }
}

fn target_index(targets: &Vec<(PlayTime, RatingTargetList)>, t: PlayTime) -> (r: Option<usize>)
    ensures
        match r {
            Some(j) => j < targets@.len() && target_of(targets@, t) == Some(j as int),
            None => target_of(targets@, t) is None,
        },
{
    let ts = t.get();
    let mut j: usize = 0;
    while j < targets.len()
        invariant
            0 <= j <= targets@.len(),
            ts == t.seconds(),
            forall|m: int| 0 <= m < j ==> (#[trigger] targets@[m]).0.seconds() < t.seconds(),
        decreases targets@.len() - j,
    {
        if targets[j].0.get() >= ts {
            proof {
                let c = choose|c: int|
                    0 <= c < targets@.len() && targets@[c].0.seconds() >= t.seconds() && forall|m: int|
                        0 <= m < c ==> (#[trigger] targets@[m]).0.seconds() < t.seconds();
                if c < j {
                    assert(targets@[c].0.seconds() < t.seconds());
                } else if c > j {
                    assert(targets@[j as int].0.seconds() < t.seconds());
                }
            }
            return Some(j);
        }
        j = j + 1;
    }
    None
}

fn pair_records(
    records: &Vec<StoreRecord>,
    targets: &Vec<(PlayTime, RatingTargetList)>,
    ignore_time: bool,
    start: PlayTime,
    end: Option<PlayTime>,
) -> (r: Vec<(StoreRecord, usize)>)
    ensures
        r@ == paired_records(records@, targets@, ignore_time, start, end),
        forall|k: int| 0 <= k < r@.len() ==> (#[trigger] r@[k]).1 < targets@.len(),
{
    let mut r: Vec<(StoreRecord, usize)> = Vec::new();
    let mut i: usize = 0;
    while i < records.len()
        invariant
            0 <= i <= records@.len(),
            r@ == paired_records(records@.take(i as int), targets@, ignore_time, start, end),
            forall|k: int| 0 <= k < r@.len() ==> (#[trigger] r@[k]).1 < targets@.len(),
        decreases records@.len() - i,
    {
        proof {
            assert(records@.take(i + 1).drop_last() =~= records@.take(i as int));
            assert(records@.take(i + 1).last() == records@[i as int]);
        }
        let rec = records[i];
        let t = rec.time.get();
        let counts = ignore_time || (start.get() <= t && match end {
            Some(e) => t < e.get(),
            None => true,
        });
        let utage = match rec.key.difficulty {
            ScoreDifficulty::Utage => true,
            _ => false,
        };
        if counts && !utage {
            match target_index(targets, rec.time) {
                None => {},
                Some(j) => {
                    r.push((rec, j));
                },
            }
        }
        i = i + 1;
    }
    proof {
        assert(records@.take(records@.len() as int) =~= records@);
    }
    r
}

pub open spec fn group_view(g: (usize, Vec<StoreRecord>)) -> (usize, Seq<StoreRecord>) {
    (g.0, g.1@)
}

fn group_runs_exec(ps: &Vec<(StoreRecord, usize)>, Ghost(bound): Ghost<nat>) -> (r: Vec<(usize, Vec<StoreRecord>)>)
    requires
        forall|k: int| 0 <= k < ps@.len() ==> (#[trigger] ps@[k]).1 < bound,
    ensures
        r@.map_values(|g: (usize, Vec<StoreRecord>)| group_view(g)) == group_runs(ps@),
        forall|k: int| 0 <= k < r@.len() ==> (#[trigger] r@[k]).0 < bound,
{
    let mut r: Vec<(usize, Vec<StoreRecord>)> = Vec::new();
    let mut i: usize = 0;
    while i < ps.len()
        invariant
            0 <= i <= ps@.len(),
            r@.map_values(|g: (usize, Vec<StoreRecord>)| group_view(g)) == group_runs(ps@.take(i as int)),
            forall|k: int| 0 <= k < ps@.len() ==> (#[trigger] ps@[k]).1 < bound,
            forall|k: int| 0 <= k < r@.len() ==> (#[trigger] r@[k]).0 < bound,
        decreases ps@.len() - i,
    {
        proof {
            assert(ps@.take(i + 1).drop_last() =~= ps@.take(i as int));
            assert(ps@.take(i + 1).last() == ps@[i as int]);
        }
        let (rec, j) = ps[i];
        proof {
            assert(ps@[i as int].1 < bound);
        }
        let ghost r0 = r@;
        let ghost g0 = group_runs(ps@.take(i as int));
        proof {
            assert(r0.map_values(|g: (usize, Vec<StoreRecord>)| group_view(g)).len() == r0.len());
        }
        let n = r.len();
        let same = n > 0 && r[n - 1].0 == j;
        if same {
            let mut last = r.pop().unwrap();
            last.1.push(rec);
            r.push(last);
            proof {
                assert forall|k: int| 0 <= k < r@.len() implies (#[trigger] r@[k]).0 < bound by {
                    if k < n - 1 {
                        assert(r@[k] == r0[k]);
                    } else {
                        assert(r0[k].0 < bound);
                    }
                }
                let target = g0.update(g0.len() - 1, (j, g0.last().1.push(rec)));
                let m = r@.map_values(|g: (usize, Vec<StoreRecord>)| group_view(g));
                assert forall|k: int| 0 <= k < r@.len() implies #[trigger] m[k] == target[k] by {
                    if k < n - 1 {
                        assert(r@[k] == r0[k]);
                        assert(g0[k] == group_view(r0[k]));
                    } else {
                        assert(g0[k] == group_view(r0[k]));
                    }
                }
                assert(m =~= target);
            }
        } else {
            let mut v: Vec<StoreRecord> = Vec::new();
            v.push(rec);
            r.push((j, v));
            proof {
                assert forall|k: int| 0 <= k < r@.len() implies (#[trigger] r@[k]).0 < bound by {
                    if k < n {
                        assert(r@[k] == r0[k]);
                    }
                }
                let target = g0.push((j, seq![rec]));
                let m = r@.map_values(|g: (usize, Vec<StoreRecord>)| group_view(g));
                assert(v@ =~= seq![rec]);
                assert forall|k: int| 0 <= k < r@.len() implies #[trigger] m[k] == target[k] by {
                    if k < n {
                        assert(r@[k] == r0[k]);
                        assert(g0[k] == group_view(r0[k]));
                    }
                }
                assert(m =~= target);
                if n > 0 {
                    assert(g0.last() == group_view(r0[n - 1]));
                }
            }
        }
        i = i + 1;
    }
    proof {
        assert(ps@.take(ps@.len() as int) =~= ps@);
    }
    r
}

proof fn lemma_contained_stops(names: Seq<(Seq<char>, usize)>, es: Seq<RatingTargetEntry>, i: int)
    requires
        0 <= i <= es.len(),
        !(contained_fold(names, es.take(i)) is Ok && contained_fold(names, es.take(i))->Ok_0 is Some),
    ensures
        contained_fold(names, es) == contained_fold(names, es.take(i)),
    decreases es.len() - i,
{
    if i < es.len() {
        let len = es.len();
        assert(es.drop_last() =~= es.take(len - 1));
        if i == len - 1 {
            assert(es.take(i) =~= es.drop_last());
        } else {
            assert(es.drop_last().take(i) =~= es.take(i));
            lemma_contained_stops(names, es.drop_last(), i);
        }
    } else {
        assert(es.take(i) =~= es);
    }
}

impl ScoreConstantsStore {
    /// Continues collecting the keys of the charts of a list over `v`, which
    /// stands at `off` in `all`.
    fn contained_more(
        &self,
        v: &Vec<RatingTargetEntry>,
        ks: &mut Vec<ScoreKey>,
        Ghost(all): Ghost<Seq<RatingTargetEntry>>,
        Ghost(off): Ghost<int>,
    ) -> (r: Result<bool, StoreError>)
        requires
            0 <= off,
            off + v@.len() <= all.len(),
            all.subrange(off, off + v@.len()) == v@,
            contained_fold(self.names_spec(), all.take(off)) == Ok::<Option<Seq<ScoreKey>>, StoreError>(
                Some(old(ks)@),
            ),
        ensures
            match r {
                Ok(true) => contained_fold(self.names_spec(), all.take(off + v@.len())) == Ok::<
                    Option<Seq<ScoreKey>>,
                    StoreError,
                >(Some(final(ks)@)),
                Ok(false) => contained_fold(self.names_spec(), all) == Ok::<Option<Seq<ScoreKey>>, StoreError>(None),
                Err(e) => contained_fold(self.names_spec(), all) == Err::<Option<Seq<ScoreKey>>, StoreError>(e),
            },
    {
        let ghost names = self.names_spec();
        let mut i: usize = 0;
        while i < v.len()
            invariant
                0 <= i <= v@.len(),
                0 <= off,
                off + v@.len() <= all.len(),
                all.subrange(off, off + v@.len()) == v@,
                names == self.names_spec(),
                contained_fold(names, all.take(off + i)) == Ok::<Option<Seq<ScoreKey>>, StoreError>(Some(ks@)),
            decreases v@.len() - i,
        {
            let ghost pre = all.take(off + i);
            proof {
                assert(all.take(off + i + 1).drop_last() =~= pre);
                assert(all.take(off + i + 1).last() == all[off + i]);
                assert(all[off + i] == v@[i as int]);
            }
            match self.key_from_target_entry(&v[i]) {
                KeyFromTargetEntry::NotFound => {
                    proof {
                        lemma_contained_stops(names, all, off + i + 1);
                    }
                    return Err(StoreError::UnknownSong);
                },
                KeyFromTargetEntry::Unique(k) => {
                    ks.push(k);
                },
                KeyFromTargetEntry::Multiple => {
                    proof {
                        lemma_contained_stops(names, all, off + i + 1);
                    }
                    return Ok(false);
                },
            }
            i = i + 1;
        }
        Ok(true)
    }

    /// The keys of the charts of a list: `None` when a name is shared by
    /// songs; an error for an unknown name.
    fn contained_keys(&self, list: &RatingTargetList) -> (r: Result<Option<Vec<ScoreKey>>, StoreError>)
        ensures
            match r {
                Ok(Some(ks)) => contained_fold(self.names_spec(), list_entries(*list)) == Ok::<
                    Option<Seq<ScoreKey>>,
                    StoreError,
                >(Some(ks@)),
                Ok(None) => contained_fold(self.names_spec(), list_entries(*list)) == Ok::<
                    Option<Seq<ScoreKey>>,
                    StoreError,
                >(None),
                Err(e) => contained_fold(self.names_spec(), list_entries(*list)) == Err::<
                    Option<Seq<ScoreKey>>,
                    StoreError,
                >(e),
            },
    {
        let ghost all = list_entries(*list);
        let ghost a = list.target_new@.len() as int;
        let ghost b = list.target_old@.len() as int;
        let ghost c = list.candidates_new@.len() as int;
        let ghost d = list.candidates_old@.len() as int;
        let mut ks: Vec<ScoreKey> = Vec::new();
        proof {
            assert(all.take(0) =~= Seq::<RatingTargetEntry>::empty());
            assert(ks@ =~= Seq::<ScoreKey>::empty());
            assert(all.subrange(0, a) =~= list.target_new@);
            assert(all.subrange(a, a + b) =~= list.target_old@);
            assert(all.subrange(a + b, a + b + c) =~= list.candidates_new@);
            assert(all.subrange(a + b + c, a + b + c + d) =~= list.candidates_old@);
            assert(all.len() == a + b + c + d);
        }
        match self.contained_more(&list.target_new, &mut ks, Ghost(all), Ghost(0)) {
            Ok(true) => {},
            Ok(false) => {
                return Ok(None);
            },
            Err(e) => {
                return Err(e);
            },
        }
        match self.contained_more(&list.target_old, &mut ks, Ghost(all), Ghost(a)) {
            Ok(true) => {},
            Ok(false) => {
                return Ok(None);
            },
            Err(e) => {
                return Err(e);
            },
        }
        match self.contained_more(&list.candidates_new, &mut ks, Ghost(all), Ghost(a + b)) {
            Ok(true) => {},
            Ok(false) => {
                return Ok(None);
            },
            Err(e) => {
                return Err(e);
            },
        }
        match self.contained_more(&list.candidates_old, &mut ks, Ghost(all), Ghost(a + b + c)) {
            Ok(true) => {},
            Ok(false) => {
                return Ok(None);
            },
            Err(e) => {
                return Err(e);
            },
        }
        proof {
            assert(all.take(a + b + c + d) =~= all);
        }
        Ok(Some(ks))
    }
}

fn contains_key(v: &Vec<ScoreKey>, k: ScoreKey) -> (r: bool)
    ensures
        r == v@.contains(k),
{
    let mut i: usize = 0;
    while i < v.len()
        invariant
            0 <= i <= v@.len(),
            forall|j: int| 0 <= j < i ==> #[trigger] v@[j] != k,
        decreases v@.len() - i,
    {
        if v[i] == k {
            assert(v@[i as int] == k);
            return true;
        }
        i = i + 1;
    }
    false
}

fn find_record(v: &Vec<StoreRecord>, key: ScoreKey) -> (r: Option<usize>)
    ensures
        match r {
            Some(p) => p < v@.len() && v@[p as int].key == key && forall|q: int| 0 <= q < p ==> (#[trigger] v@[q]).key != key,
            None => forall|q: int| 0 <= q < v@.len() ==> (#[trigger] v@[q]).key != key,
        },
{
    let mut p: usize = 0;
    while p < v.len()
        invariant
            0 <= p <= v@.len(),
            forall|q: int| 0 <= q < p ==> (#[trigger] v@[q]).key != key,
        decreases v@.len() - p,
    {
        if v[p].key == key {
            return Some(p);
        }
        p = p + 1;
    }
    None
}

/// For each chart not in `contained`, the first record with its best
/// achievement, in the order the charts first appear.
pub fn best_records(group: &Vec<StoreRecord>, contained: &Vec<ScoreKey>) -> (r: Vec<StoreRecord>)
    ensures
        r@ == best_of(group@, contained@),
{
    let mut r: Vec<StoreRecord> = Vec::new();
    let mut i: usize = 0;
    while i < group.len()
        invariant
            0 <= i <= group@.len(),
            r@ == best_of(group@.take(i as int), contained@),
            forall|a: int, b: int| 0 <= a < b < r@.len() ==> (#[trigger] r@[a]).key != (#[trigger] r@[b]).key,
        decreases group@.len() - i,
    {
        proof {
            assert(group@.take(i + 1).drop_last() =~= group@.take(i as int));
            assert(group@.take(i + 1).last() == group@[i as int]);
        }
        let rec = group[i];
        if !contains_key(contained, rec.key) {
            let ghost r0 = r@;
            let fp = find_record(&r, rec.key);
            if let Some(p) = fp {
                proof {
                    let c = choose|c: int| 0 <= c < r0.len() && r0[c].key == rec.key;
                    if c != p as int {
                        if c < p {
                            assert(r0[c].key != rec.key);
                        } else {
                            assert(r0[p as int].key != r0[c].key);
                        }
                    }
                }
                if r[p].achievement.get() < rec.achievement.get() {
                    r.set(p, rec);
                    proof {
                        assert forall|a: int, b: int| 0 <= a < b < r@.len() implies (#[trigger] r@[a]).key
                            != (#[trigger] r@[b]).key by {
                            assert(r0[a].key != r0[b].key);
                        }
                    }
                }
            } else {
                r.push(rec);
                proof {
                    assert(!exists|p: int| 0 <= p < r0.len() && r0[p].key == rec.key);
                    assert forall|a: int, b: int| 0 <= a < b < r@.len() implies (#[trigger] r@[a]).key
                        != (#[trigger] r@[b]).key by {
                        if b == r0.len() {
                            assert(r0[a].key != rec.key);
                        } else {
                            assert(r0[a].key != r0[b].key);
                        }
                    }
                }
            }
        }
        i = i + 1;
    }
    proof {
        assert(group@.take(group@.len() as int) =~= group@);
    }
    r
}

/// Every score constant, in increasing order.
fn all_constants_vec() -> (r: Vec<ScoreConstant>)
    ensures
        r@ == all_constants(),
{
    let r = ScoreConstant::candidates();
    proof {
        assert forall|i: int| 0 <= i < 141 implies #[trigger] r@[i] == all_constants()[i] by {
            lemma_constant_exists(10 + i);
            lemma_constant_eq(r@[i], constant_with_value((10 + i) as u8));
        }
        assert(r@ =~= all_constants());
    }
    r
}

/// The constants that keep a record of achievement `a` out of a list (see
/// `below_list`).
pub fn below_candidates(min_pair: (u16, u32), border_pair: (u16, u32), a: AchievementValue, sssplus: bool) -> (r: Vec<
    ScoreConstant,
>)
    ensures
        r@ == below_list(min_pair, border_pair, a, sssplus),
{
    let all = all_constants_vec();
    let ghost p = |c: ScoreConstant|
        pair_le((rating_of(c, a), a.spec_get()), min_pair) || (sssplus && pair_le(
            (rating_of(c, a), a.spec_get()),
            border_pair,
        ));
    let coef = rank_coef(a);
    let av = a.get();
    let mut r: Vec<ScoreConstant> = Vec::new();
    let mut k: usize = 0;
    while k < all.len()
        invariant
            0 <= k <= all@.len(),
            r@ == kept_by(all@.take(k as int), p),
            p == (|c: ScoreConstant|
                pair_le((rating_of(c, a), a.spec_get()), min_pair) || (sssplus && pair_le(
                    (rating_of(c, a), a.spec_get()),
                    border_pair,
                ))),
            coef.0 == rank_coef_spec(a.spec_get()),
            av == a.spec_get(),
        decreases all@.len() - k,
    {
        let c = all[k];
        let v = c.get();
        proof {
            assert(all@.take(k + 1).drop_last() =~= all@.take(k as int));
            assert(all@.take(k + 1).last() == c);
            lemma_rating_precise_bound(v, a.spec_get());
        }
        let this = single_song_rating(c, a, coef).get();
        let le_min = this < min_pair.0 || (this == min_pair.0 && av <= min_pair.1);
        let le_border = this < border_pair.0 || (this == border_pair.0 && av <= border_pair.1);
        if le_min || (sssplus && le_border) {
            r.push(c);
        }
        k = k + 1;
    }
    proof {
        assert(all@.take(all@.len() as int) =~= all@);
        assert(p =~= (|c: ScoreConstant|
            pair_le((rating_of(c, a), a.spec_get()), min_pair) || (sssplus && pair_le(
                (rating_of(c, a), a.spec_get()),
                border_pair,
            ))));
    }
    r
}

fn not_in_list_string(r: StoreRecord, user: Option<&str>, target_time: PlayTime, bound: (u16, u32)) -> (s: String)
    ensures
        s@ == not_in_list_text(
            r,
            match user {
                Some(u) => Some(u@),
                None => None,
            },
            target_time,
            bound,
        ),
{
    let mut s = String::new();
    push_str(&mut s, "because record played at ");
    let t = r.time.to_string();
    push_str(&mut s, t.as_str());
    push_str(&mut s, " achieving ");
    let at = r.achievement.to_string();
    push_str(&mut s, at.as_str());
    match user {
        Some(u) => {
            push_str(&mut s, " played by UserName(");
            let d = debug_string(u);
            push_str(&mut s, d.as_str());
            push_str(&mut s, ")");
        },
        None => {},
    }
    push_str(&mut s, " is not in list at ");
    let tt = target_time.to_string();
    push_str(&mut s, tt.as_str());
    push_str(&mut s, ", so it's below ");
    push_str(&mut s, "(RatingValue(");
    push_decimal(&mut s, bound.0 as u64);
    push_str(&mut s, "), AchievementValue(");
    push_decimal(&mut s, bound.1 as u64);
    push_str(&mut s, "))");
    s
}

impl ScoreConstantsStore {
    /// The best (rating, achievement) pair of an entry of a list, over the
    /// candidates left for its chart.
    fn entry_pair_exec(&self, e: &RatingTargetEntry) -> (r: Result<(u16, u32), StoreError>)
        requires
            self.wf(),
        ensures
            r == entry_pair(self.names_spec(), self.entries_spec(), self.removed_spec(), *e),
    {
        match self.key_from_target_entry(e) {
            KeyFromTargetEntry::Unique(k) => match self.get(k) {
                Err(err) => Err(err),
                Ok(None) => Err(StoreError::Removed(k)),
                Ok(Some(entry)) => {
                    let a = e.achievement;
                    let cands = &entry.candidates;
                    if cands.len() == 0 {
                        return Err(StoreError::NoMoreCandidates(k));
                    }
                    let coef = rank_coef(a);
                    let mut m: u16 = 0;
                    let mut i: usize = 0;
                    while i < cands.len()
                        invariant
                            0 <= i <= cands@.len(),
                            m == max_rating(cands@.take(i as int), a),
                            coef.0 == rank_coef_spec(a.spec_get()),
                        decreases cands@.len() - i,
                    {
                        let c = cands[i];
                        let v = c.get();
                        proof {
                            assert(cands@.take(i + 1).drop_last() =~= cands@.take(i as int));
                            assert(cands@.take(i + 1).last() == c);
                            lemma_rating_precise_bound(v, a.spec_get());
                        }
                        let x = single_song_rating(c, a, coef).get();
                        if x > m {
                            m = x;
                        }
                        i = i + 1;
                    }
                    proof {
                        assert(cands@.take(cands@.len() as int) =~= cands@);
                    }
                    Ok((m, a.get()))
                },
            },
            _ => Err(StoreError::UnknownSong),
        }
    }

    /// What the best record `rec` of a chart missing from `list` does.
    fn best_step_exec(
        &mut self,
        version: MaimaiVersion,
        target_time: PlayTime,
        list: &RatingTargetList,
        user: Option<&str>,
        rec: StoreRecord,
    ) -> (r: Result<(), StoreError>)
        requires
            old(self).wf(),
        ensures
            final(self).wf(),
            final(self).removed_spec() == old(self).removed_spec(),
            final(self).names_spec() == old(self).names_spec(),
            final(self).show_details_spec() == old(self).show_details_spec(),
            ({
                let f = best_step(
                    (old(self).entries_spec(), old(self).events_spec(), None),
                    old(self).names_spec(),
                    old(self).removed_spec(),
                    version,
                    target_time,
                    *list,
                    match user {
                        Some(u) => Some(u@),
                        None => None,
                    },
                    rec,
                );
                &&& final(self).entries_spec() == f.0
                &&& final(self).events_spec() == f.1
                &&& match f.2 {
                    Some(e) => r == Err::<(), StoreError>(e),
                    None => r is Ok,
                }
            }),
    {
        let found = match self.get(rec.key) {
            Err(e) => {
                return Err(e);
            },
            Ok(x) => x,
        };
        let entry = match found {
            None => {
                return Ok(());
            },
            Some(entry) => entry,
        };
        let new_song = entry.version == version;
        let targets = if new_song { &list.target_new } else { &list.target_old };
        let cands = if new_song { &list.candidates_new } else { &list.candidates_old };
        if targets.len() == 0 {
            return Err(StoreError::IncompleteList);
        }
        let border = &targets[targets.len() - 1];
        let min = if cands.len() > 0 { &cands[cands.len() - 1] } else { border };
        let bp = match self.entry_pair_exec(border) {
            Err(e) => {
                return Err(e);
            },
            Ok(x) => x,
        };
        let mp = match self.entry_pair_exec(min) {
            Err(e) => {
                return Err(e);
            },
            Ok(x) => x,
        };
        let sss = match rec.rank {
            AchievementRank::SSSPlus => true,
            _ => false,
        };
        let new = below_candidates(mp, bp, rec.achievement, sss);
        let bound = if sss { bp } else { mp };
        let msg = not_in_list_string(rec, user, target_time, bound);
        let ghost es = self.entries_spec();
        let ghost ku = key_index(es, rec.key);
        let res = self.set(rec.key, &new, msg.as_str());
        proof {
            let i = ku->0;
            assert((|c: ScoreConstant| new@.contains(c)) =~= (|c: ScoreConstant| below_list(mp, bp, rec.achievement, sss).contains(c)));
        }
        res
    }
}

proof fn lemma_bests_stop(
    st: StoreState,
    names: Seq<(Seq<char>, usize)>,
    removed: Seq<usize>,
    version: MaimaiVersion,
    target_time: PlayTime,
    list: RatingTargetList,
    user: Option<Seq<char>>,
    bests: Seq<StoreRecord>,
    i: int,
)
    requires
        0 <= i <= bests.len(),
        bests_fold(st, names, removed, version, target_time, list, user, bests.take(i)).2 is Some,
    ensures
        bests_fold(st, names, removed, version, target_time, list, user, bests) == bests_fold(
            st,
            names,
            removed,
            version,
            target_time,
            list,
            user,
            bests.take(i),
        ),
    decreases bests.len() - i,
{
    if i < bests.len() {
        let len = bests.len();
        assert(bests.drop_last() =~= bests.take(len - 1));
        if i == len - 1 {
            assert(bests.take(i) =~= bests.drop_last());
        } else {
            assert(bests.drop_last().take(i) =~= bests.take(i));
            lemma_bests_stop(st, names, removed, version, target_time, list, user, bests.drop_last(), i);
        }
    } else {
        assert(bests.take(i) =~= bests);
    }
}

proof fn lemma_groups_stop(
    st: StoreState,
    names: Seq<(Seq<char>, usize)>,
    removed: Seq<usize>,
    version: MaimaiVersion,
    targets: Seq<(PlayTime, RatingTargetList)>,
    user: Option<Seq<char>>,
    gs: Seq<(usize, Seq<StoreRecord>)>,
    i: int,
)
    requires
        0 <= i <= gs.len(),
        groups_fold(st, names, removed, version, targets, user, gs.take(i)).2 is Some,
    ensures
        groups_fold(st, names, removed, version, targets, user, gs) == groups_fold(
            st,
            names,
            removed,
            version,
            targets,
            user,
            gs.take(i),
        ),
    decreases gs.len() - i,
{
    if i < gs.len() {
        let len = gs.len();
        assert(gs.drop_last() =~= gs.take(len - 1));
        if i == len - 1 {
            assert(gs.take(i) =~= gs.drop_last());
        } else {
            assert(gs.drop_last().take(i) =~= gs.take(i));
            lemma_groups_stop(st, names, removed, version, targets, user, gs.drop_last(), i);
        }
    } else {
        assert(gs.take(i) =~= gs);
    }
}

impl ScoreConstantsStore {
    /// Learns from records missing from the rating target lists: the records
    /// of the version (from `start` to `end`, or of any time with
    /// `ignore_time`), utage aside, are taken in runs that share the first
    /// list recorded at or after them (`targets` in increasing time order);
    /// for each chart of a run that its list does not hold, the best record
    /// of the run cannot rate above the list's lowest entry (for an SSS+
    /// record, above the lowest entry that counts), which narrows the chart's
    /// constants. A run whose list names a song shared by several songs is
    /// passed over.
    pub fn records_not_in_targets(
        &mut self,
        version: MaimaiVersion,
        ignore_time: bool,
        start: PlayTime,
        end: Option<PlayTime>,
        user: Option<&str>,
        records: &Vec<StoreRecord>,
        targets: &Vec<(PlayTime, RatingTargetList)>,
    ) -> (r: Result<(), StoreError>)
        requires
            old(self).wf(),
        ensures
            final(self).wf(),
            final(self).removed_spec() == old(self).removed_spec(),
            final(self).names_spec() == old(self).names_spec(),
            final(self).show_details_spec() == old(self).show_details_spec(),
            ({
                let f = groups_fold(
                    (old(self).entries_spec(), old(self).events_spec(), None),
                    old(self).names_spec(),
                    old(self).removed_spec(),
                    version,
                    targets@,
                    match user {
                        Some(u) => Some(u@),
                        None => None,
                    },
                    group_runs(paired_records(records@, targets@, ignore_time, start, end)),
                );
                &&& final(self).entries_spec() == f.0
                &&& final(self).events_spec() == f.1
                &&& match f.2 {
                    Some(e) => r == Err::<(), StoreError>(e),
                    None => r is Ok,
                }
            }),
    {
        let ghost u = match user {
            Some(x) => Some(x@),
            None => None::<Seq<char>>,
        };
        let ghost st0: StoreState = (self.entries_spec(), self.events_spec(), None);
        let ghost names = self.names_spec();
        let ghost rm = self.removed_spec();
        let ps = pair_records(records, targets, ignore_time, start, end);
        let gs = group_runs_exec(&ps, Ghost(targets@.len()));
        let ghost gsv = group_runs(paired_records(records@, targets@, ignore_time, start, end));
        let mut gi: usize = 0;
        proof {
            assert(gsv.take(0) =~= Seq::<(usize, Seq<StoreRecord>)>::empty());
            assert(gs@.map_values(|g: (usize, Vec<StoreRecord>)| group_view(g)).len() == gs@.len());
        }
        while gi < gs.len()
            invariant
                0 <= gi <= gs@.len(),
                gs@.map_values(|g: (usize, Vec<StoreRecord>)| group_view(g)) == gsv,
                gsv == group_runs(paired_records(records@, targets@, ignore_time, start, end)),
                gsv.len() == gs@.len(),
                forall|k: int| 0 <= k < gs@.len() ==> (#[trigger] gs@[k]).0 < targets@.len(),
                self.wf(),
                self.names_spec() == names,
                self.removed_spec() == rm,
                names == old(self).names_spec(),
                rm == old(self).removed_spec(),
                st0 == (old(self).entries_spec(), old(self).events_spec(), None::<StoreError>),
                self.show_details_spec() == old(self).show_details_spec(),
                u == (match user {
                    Some(x) => Some(x@),
                    None => None::<Seq<char>>,
                }),
                ({
                    let f = groups_fold(st0, names, rm, version, targets@, u, gsv.take(gi as int));
                    &&& f.0 == self.entries_spec()
                    &&& f.1 == self.events_spec()
                    &&& f.2 is None
                }),
            decreases gs@.len() - gi,
        {
            let ghost g = gsv[gi as int];
            proof {
                assert(gsv.take(gi + 1).drop_last() =~= gsv.take(gi as int));
                assert(gsv.take(gi + 1).last() == g);
                assert(g == group_view(gs@[gi as int]));
            }
            let ti = gs[gi].0;
            let target_time = targets[ti].0;
            let list = &targets[ti].1;
            let ghost stg: StoreState = (self.entries_spec(), self.events_spec(), None);
            proof {
                assert(g.0 == ti);
                assert(targets@[ti as int] == (target_time, *list));
                assert(g.1 == gs@[gi as int].1@);
            }
            match self.contained_keys(list) {
                Err(e) => {
                    proof {
                        let f0 = groups_fold(st0, names, rm, version, targets@, u, gsv.take(gi as int));
                        let f1 = groups_fold(st0, names, rm, version, targets@, u, gsv.take(gi + 1));
                        assert(f1 == group_step(f0, names, rm, version, targets@, u, g));
                        assert(f0 == stg);
                        assert(f1 == (stg.0, stg.1, Some(e)));
                        lemma_groups_stop(st0, names, rm, version, targets@, u, gsv, gi + 1);
                    }
                    return Err(e);
                },
                Ok(None) => {},
                Ok(Some(ks)) => {
                    let bests = best_records(&gs[gi].1, &ks);
                    let mut bi: usize = 0;
                    proof {
                        assert(bests@.take(0) =~= Seq::<StoreRecord>::empty());
                    }
                    while bi < bests.len()
                        invariant
                            0 <= bi <= bests@.len(),
                            gi < gsv.len(),
                            gsv.len() == gs@.len(),
                            gsv == group_runs(paired_records(records@, targets@, ignore_time, start, end)),
                            g == gsv[gi as int],
                            targets@[g.0 as int] == (target_time, *list),
                            contained_fold(names, list_entries(*list)) == Ok::<Option<Seq<ScoreKey>>, StoreError>(Some(ks@)),
                            bests@ == best_of(g.1, ks@),
                            gsv.take(gi + 1).drop_last() == gsv.take(gi as int),
                            gsv.take(gi + 1).last() == g,
                            groups_fold(st0, names, rm, version, targets@, u, gsv.take(gi as int)) == stg,
                            stg.2 is None,
                            names == old(self).names_spec(),
                            rm == old(self).removed_spec(),
                            st0 == (old(self).entries_spec(), old(self).events_spec(), None::<StoreError>),
                            u == (match user {
                                Some(x) => Some(x@),
                                None => None::<Seq<char>>,
                            }),
                            self.wf(),
                            self.names_spec() == names,
                            self.removed_spec() == rm,
                            self.show_details_spec() == old(self).show_details_spec(),
                            ({
                                let f = bests_fold(stg, names, rm, version, target_time, *list, u, bests@.take(bi as int));
                                &&& f.0 == self.entries_spec()
                                &&& f.1 == self.events_spec()
                                &&& f.2 is None
                            }),
                        decreases bests@.len() - bi,
                    {
                        proof {
                            assert(bests@.take(bi + 1).drop_last() =~= bests@.take(bi as int));
                            assert(bests@.take(bi + 1).last() == bests@[bi as int]);
                        }
                        let ghost before: StoreState = (self.entries_spec(), self.events_spec(), None);
                        let res = self.best_step_exec(version, target_time, list, user, bests[bi]);
                        match res {
                            Ok(()) => {},
                            Err(e) => {
                                proof {
                                    let b0 = bests_fold(stg, names, rm, version, target_time, *list, u, bests@.take(bi as int));
                                    assert(b0 == before);
                                    let b1 = bests_fold(stg, names, rm, version, target_time, *list, u, bests@.take(bi + 1));
                                    assert(b1 == best_step(b0, names, rm, version, target_time, *list, u, bests@[bi as int]));
                                    assert(b1 == (self.entries_spec(), self.events_spec(), Some(e)));
                                    lemma_bests_stop(stg, names, rm, version, target_time, *list, u, bests@, bi + 1);
                                    let f1 = groups_fold(st0, names, rm, version, targets@, u, gsv.take(gi + 1));
                                    assert(f1 == group_step(stg, names, rm, version, targets@, u, g));
                                    assert(stg.2 is None);
                                    assert(targets@[g.0 as int].0 == target_time);
                                    assert(targets@[g.0 as int].1 == *list);
                                    assert(group_step(stg, names, rm, version, targets@, u, g) == bests_fold(
                                        stg, names, rm, version, target_time, *list, u, best_of(g.1, ks@)));
                                    assert(f1 == (self.entries_spec(), self.events_spec(), Some(e)));
                                    lemma_groups_stop(st0, names, rm, version, targets@, u, gsv, gi + 1);
                                }
                                return Err(e);
                            },
                        }
                        bi = bi + 1;
                    }
                    proof {
                        assert(bests@.take(bests@.len() as int) =~= bests@);
                    }
                },
            }
            gi = gi + 1;
        }
        proof {
            assert(gsv.take(gsv.len() as int) =~= gsv);
        }
        Ok(())
    }
}

impl ScoreConstantsStore {
    /// The chart that an entry of a rating target list names, with its
    /// candidates; none when songs share the entry's name.
    pub fn levels_from_target_entry(&self, entry: &RatingTargetEntry) -> (r: Result<
        Option<(ScoreKey, &Vec<ScoreConstant>)>,
        StoreError,
    >)
        requires
            self.wf(),
        ensures
            match key_from_names(
                self.names_spec(),
                entry.song_name.0@,
                entry.score_metadata.generation,
                entry.score_metadata.difficulty,
            ) {
                KeyFromTargetEntry::NotFound => r == Err::<Option<(ScoreKey, &Vec<ScoreConstant>)>, StoreError>(
                    StoreError::UnknownSong,
                ),
                KeyFromTargetEntry::Multiple => r matches Ok(None),
                KeyFromTargetEntry::Unique(k) => match key_index(self.entries_spec(), k) {
                    Some(i) => r matches Ok(Some(p)) && p.0 == k && p.1@ == self.entries_spec()[i].2,
                    None => if self.removed_spec().contains(k.icon) {
                        r == Err::<Option<(ScoreKey, &Vec<ScoreConstant>)>, StoreError>(StoreError::Removed(k))
                    } else {
                        r == Err::<Option<(ScoreKey, &Vec<ScoreConstant>)>, StoreError>(StoreError::NotFound(k))
                    },
                },
            },
    {
        match self.key_from_target_entry(entry) {
            KeyFromTargetEntry::NotFound => Err(StoreError::UnknownSong),
            KeyFromTargetEntry::Unique(k) => match self.get(k) {
                Err(e) => Err(e),
                Ok(None) => Err(StoreError::Removed(k)),
                Ok(Some(e)) => Ok(Some((k, &e.candidates))),
            },
            KeyFromTargetEntry::Multiple => Ok(None),
        }
    }
}

/// The single-song rating of an entry of a rating target list if its chart
/// has constant `level`.
pub fn single_song_rating_for_target_entry(level: ScoreConstant, entry: &RatingTargetEntry) -> (r: RatingValue)
    ensures
        r.spec_get() == rating_of(level, entry.achievement),
{
    let a = entry.achievement;
    let v = level.get();
    proof {
        lemma_rating_precise_bound(v, a.spec_get());
    }
    single_song_rating(level, a, rank_coef(a))
}

/// Narrowing keeps only candidates that were there and that the rule
/// accepts, in their order.
pub proof fn lemma_kept_by_subset(s: Seq<ScoreConstant>, p: spec_fn(ScoreConstant) -> bool)
    ensures
        kept_by(s, p).len() <= s.len(),
        forall|c: ScoreConstant| #[trigger] kept_by(s, p).contains(c) ==> s.contains(c) && p(c),
        forall|c: ScoreConstant| s.contains(c) && p(c) ==> #[trigger] kept_by(s, p).contains(c),
    decreases s.len(),
{
    if s.len() > 0 {
        lemma_kept_by_subset(s.drop_last(), p);
        let prev = kept_by(s.drop_last(), p);
        assert forall|c: ScoreConstant| kept_by(s, p).contains(c) implies s.contains(c) && p(c) by {
            let cur = kept_by(s, p);
            let k = choose|k: int| 0 <= k < cur.len() && cur[k] == c;
            if k < prev.len() {
                assert(cur[k] == prev[k]);
                assert(prev.contains(c));
                assert(s.drop_last().contains(c) && p(c));
                let j = choose|j: int| 0 <= j < s.drop_last().len() && s.drop_last()[j] == c;
                assert(s[j] == c);
            } else {
                assert(p(s.last()));
                assert(cur == prev.push(s.last()));
                assert(c == s.last());
                assert(s[s.len() - 1] == c);
            }
        }
        assert forall|c: ScoreConstant| s.contains(c) && p(c) implies kept_by(s, p).contains(c) by {
            let j = choose|j: int| 0 <= j < s.len() && s[j] == c;
            let cur = kept_by(s, p);
            if j < s.len() - 1 {
                assert(s.drop_last()[j] == c);
                assert(s.drop_last().contains(c));
                assert(kept_by(s.drop_last(), p).contains(c));
                let k = choose|k: int| 0 <= k < prev.len() && prev[k] == c;
                if p(s.last()) {
                    assert(cur == prev.push(s.last()));
                    assert(cur[k] == c);
                } else {
                    assert(cur == prev);
                    assert(cur[k] == c);
                }
            } else {
                assert(cur == prev.push(s.last()));
                assert(cur[prev.len() as int] == c);
            }
        }
    }
}

/// A narrowing keeps the events recorded so far, adding at most one, and
/// keeps every chart's key and version.
pub proof fn lemma_narrowed_keeps_history(
    es: Seq<EntryView>,
    events: Seq<(ScoreKey, Seq<char>)>,
    i: int,
    n: Seq<ScoreConstant>,
    reason: Seq<char>,
)
    requires
        0 <= i < es.len(),
    ensures
        narrowed(es, events, i, n, reason).1.len() <= events.len() + 1,
        events.len() <= narrowed(es, events, i, n, reason).1.len(),
        forall|j: int| 0 <= j < events.len() ==> #[trigger] narrowed(es, events, i, n, reason).1[j] == events[j],
        narrowed(es, events, i, n, reason).0.len() == es.len(),
        forall|j: int|
            0 <= j < es.len() ==> (#[trigger] narrowed(es, events, i, n, reason).0[j]).0 == es[j].0
                && narrowed(es, events, i, n, reason).0[j].1 == es[j].1,
{
}

/// How many of the first `k` charts have exactly one candidate.
pub open spec fn determined_count(es: Seq<EntryView>, k: int) -> int
    decreases k,
{
    if k <= 0 {
        0
    } else {
        determined_count(es, k - 1) + if es[k - 1].2.len() == 1 {
            1int
        } else {
            0int
        }
    }
}

fn contains_constant(v: &Vec<ScoreConstant>, c: ScoreConstant) -> (r: bool)
    ensures
        r == v@.contains(c),
{
    let mut k: usize = 0;
    while k < v.len()
        invariant
            0 <= k <= v@.len(),
            forall|j: int| 0 <= j < k ==> #[trigger] v@[j] != c,
        decreases v@.len() - k,
    {
        if v[k] == c {
            assert(v@[k as int] == c);
            return true;
        }
        k = k + 1;
    }
    false
}

fn reason_string(n: &Vec<ScoreConstant>, reason: &str) -> (r: String)
    ensures
        r@ == reason_text(n@, reason@),
{
    let mut r = String::new();
    push_str(&mut r, "Constrained to [");
    let mut k: usize = 0;
    let ghost start = r@;
    while k < n.len()
        invariant
            0 <= k <= n@.len(),
            start == "Constrained to ["@,
            r@ == start + constants_text(n@.take(k as int)),
        decreases n@.len() - k,
    {
        if k > 0 {
            push_str(&mut r, ", ");
        }
        let t = n[k].to_string();
        push_str(&mut r, t.as_str());
        proof {
            let s = n@.take(k + 1);
            assert(s.drop_last() =~= n@.take(k as int));
            assert(s.last() == n@[k as int]);
            if k == 0 {
                assert(n@.take(0) =~= Seq::<ScoreConstant>::empty());
            }
        }
        k = k + 1;
    }
    proof {
        assert(n@.take(n@.len() as int) =~= n@);
    }
    push_str(&mut r, "] ");
    push_str(&mut r, reason);
    r
}

fn delta_reason_string(time: PlayTime, a: AchievementValue, user: Option<&str>, rating: i16) -> (r: String)
    ensures
        r@ == delta_reason_text(
            time,
            a,
            match user {
                Some(u) => Some(u@),
                None => None,
            },
            rating,
        ),
{
    let mut r = String::new();
    push_str(&mut r, "beacuse record played at ");
    let t = time.to_string();
    push_str(&mut r, t.as_str());
    push_str(&mut r, " achieving ");
    let at = a.to_string();
    push_str(&mut r, at.as_str());
    match user {
        Some(u) => {
            push_str(&mut r, " played by UserName(");
            let d = debug_string(u);
            push_str(&mut r, d.as_str());
            push_str(&mut r, ")");
        },
        None => {},
    }
    push_str(&mut r, " determines the single-song rating to be ");
    push_signed_decimal(&mut r, rating as i64);
    r
}

} // verus!
