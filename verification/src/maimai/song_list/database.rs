use vstd::prelude::*;

use crate::maimai::rating::InternalScoreLevel;
use crate::maimai::schema::latest::{
    icon_key, ArtistName, Category, ScoreDifficulty, ScoreGeneration, SongIcon, SongName,
};
use crate::maimai::song_list::{
    exists_in_version, remove_state_dated, RemoveState, SongAbbreviation, SongKana, UtageScore,
};
use crate::maimai::version::{version_lt, version_of_date, MaimaiVersion};
use crate::text::{push_str, str_eq};

verus! {

/// The levels of one chart, version by version.
pub struct OrdinaryScore {
    pub levels: Vec<(MaimaiVersion, InternalScoreLevel)>,
}

/// The charts of one generation of a song, with the version the generation
/// was added in.
pub struct OrdinaryScores {
    pub easy: Option<OrdinaryScore>,
    pub basic: OrdinaryScore,
    pub advanced: OrdinaryScore,
    pub expert: OrdinaryScore,
    pub master: OrdinaryScore,
    pub re_master: Option<OrdinaryScore>,
    pub version: Option<MaimaiVersion>,
}

/// A song: zero or one standard and zero or one deluxe generation of
/// charts, and zero or more utage charts. The histories are in version
/// order.
pub struct Song {
    pub name: Vec<(MaimaiVersion, SongName)>,
    pub category: Vec<(MaimaiVersion, Category)>,
    pub artist: Vec<(MaimaiVersion, ArtistName)>,
    pub pronunciation: Option<SongKana>,
    pub abbreviation: Vec<(MaimaiVersion, SongAbbreviation)>,
    pub standard: Option<OrdinaryScores>,
    pub deluxe: Option<OrdinaryScores>,
    pub utage_scores: Vec<UtageScore>,
    pub icon: Option<SongIcon>,
    pub remove_state: RemoveState,
    /// Whether the song was locked, from each time (seconds) on.
    pub locked_history: Vec<(i64, bool)>,
}

pub open spec fn is_removed(s: RemoveState) -> bool {
    s matches RemoveState::Removed(_)
}

/// The generation `g` of a song.
pub open spec fn scores_of(song: Song, g: ScoreGeneration) -> Option<OrdinaryScores> {
    match g {
        ScoreGeneration::Standard => song.standard,
        ScoreGeneration::Deluxe => song.deluxe,
    }
}

/// Each generation of a song is its own set of charts: the standard charts
/// for STANDARD and the DX charts for DELUXE.
pub proof fn lemma_scores_of_own_generation(song: Song)
    ensures
        scores_of(song, ScoreGeneration::Standard) == song.standard,
        scores_of(song, ScoreGeneration::Deluxe) == song.deluxe,
{
}

impl Song {
    /// The song is removed for good.
    pub fn removed(&self) -> (r: bool)
        ensures
            r == is_removed(self.remove_state),
    {
        match self.remove_state {
            RemoveState::Removed(_) => true,
            _ => false,
        }
    }

    /// The most recent name of the song.
    pub fn latest_song_name(&self) -> (r: Option<&SongName>)
        ensures
            self.name@.len() == 0 ==> r is None,
            self.name@.len() > 0 ==> r == Some(&self.name@.last().1),
    {
        let n = self.name.len();
        if n == 0 {
            None
        } else {
            Some(&self.name[n - 1].1)
        }
    }

    /// The generation `g` of the song.
    pub fn scores(&self, g: ScoreGeneration) -> (r: Option<&OrdinaryScores>)
        ensures
            r == match scores_of(*self, g) {
                Some(x) => Some(&x),
                None => None,
            },
    {
        match g {
            ScoreGeneration::Standard => match &self.standard {
                Some(x) => Some(x),
                None => None,
            },
            ScoreGeneration::Deluxe => match &self.deluxe {
                Some(x) => Some(x),
                None => None,
            },
        }
    }
}

/// The chart of difficulty `d`; none for a missing Re:MASTER and for utage.
pub open spec fn score_of(scores: OrdinaryScores, d: ScoreDifficulty) -> Option<OrdinaryScore> {
    match d {
        ScoreDifficulty::Basic => Some(scores.basic),
        ScoreDifficulty::Advanced => Some(scores.advanced),
        ScoreDifficulty::Expert => Some(scores.expert),
        ScoreDifficulty::Master => Some(scores.master),
        ScoreDifficulty::ReMaster => scores.re_master,
        ScoreDifficulty::Utage => None,
    }
}

/// The chart of each difficulty is that difficulty's own chart: BASIC,
/// ADVANCED, EXPERT and MASTER are the generation's charts in that order,
/// the one at the difficulty's place in the chart ids; Re:MASTER is the
/// Re:MASTER chart when there is one; utage has no chart here. So two
/// difficulties of BASIC to MASTER give the charts of two different places.
pub proof fn lemma_score_of_own_chart(s: OrdinaryScores, d: ScoreDifficulty)
    ensures
        score_of(s, ScoreDifficulty::Basic) == Some(s.basic),
        score_of(s, ScoreDifficulty::Advanced) == Some(s.advanced),
        score_of(s, ScoreDifficulty::Expert) == Some(s.expert),
        score_of(s, ScoreDifficulty::Master) == Some(s.master),
        score_of(s, ScoreDifficulty::ReMaster) == s.re_master,
        score_of(s, ScoreDifficulty::Utage) is None,
        d != ScoreDifficulty::ReMaster && d != ScoreDifficulty::Utage ==> score_of(s, d) == Some(
            seq![s.basic, s.advanced, s.expert, s.master][difficulty_offset(d)],
        ),
{
}

impl OrdinaryScores {
    /// The chart of difficulty `d`.
    pub fn get_score(&self, d: ScoreDifficulty) -> (r: Option<&OrdinaryScore>)
        ensures
            r == match score_of(*self, d) {
                Some(x) => Some(&x),
                None => None,
            },
    {
        match d {
            ScoreDifficulty::Basic => Some(&self.basic),
            ScoreDifficulty::Advanced => Some(&self.advanced),
            ScoreDifficulty::Expert => Some(&self.expert),
            ScoreDifficulty::Master => Some(&self.master),
            ScoreDifficulty::ReMaster => match &self.re_master {
                Some(x) => Some(x),
                None => None,
            },
            ScoreDifficulty::Utage => None,
        }
    }
}

/// Why a song list is not a database.
#[derive(Clone, Copy, PartialEq, Eq, Structural, Debug)]
pub enum DatabaseError {
    /// The song at this position has no name.
    NoName(usize),
    /// The song at this position is not removed but has no cover art.
    NoIcon(usize),
    /// A generation of a song that is not removed has no version.
    NoVersion(usize, ScoreGeneration),
    /// Two songs share a cover art.
    DuplicateIcon,
    /// A removal or revival date of this song lies in no version.
    UndatedRemoval(usize),
    /// No song has the cover art.
    NoSongForIcon,
}

/// The first position below `n` that `p` holds at.
pub open spec fn first_where(n: int, p: spec_fn(int) -> bool) -> Option<int> {
    if exists|i: int| 0 <= i < n && #[trigger] p(i) {
        Some(choose|i: int| 0 <= i < n && #[trigger] p(i) && forall|j: int| 0 <= j < i ==> !#[trigger] p(j))
    } else {
        None
    }
}

proof fn lemma_first_where(n: int, p: spec_fn(int) -> bool, i: int)
    requires
        0 <= i < n,
        p(i),
        forall|j: int| 0 <= j < i ==> !#[trigger] p(j),
    ensures
        first_where(n, p) == Some(i),
{
    let c = choose|c: int| 0 <= c < n && #[trigger] p(c) && forall|j: int| 0 <= j < c ==> !#[trigger] p(j);
    if c < i {
        assert(!p(c));
    } else if c > i {
        assert(!p(i));
    }
}

/// A song that is not removed lacks a cover art or the version of one of
/// its generations.
pub open spec fn lacks_icon_or_version(song: Song) -> bool {
    !is_removed(song.remove_state) && (song.icon is None || (song.standard matches Some(s) && s.version is None) || (
    song.deluxe matches Some(s) && s.version is None))
}

/// Both songs have the same cover art.
pub open spec fn same_icons(x: Song, y: Song) -> bool {
    match (x.icon, y.icon) {
        (Some(a), Some(b)) => icon_key(a.0@) == icon_key(b.0@),
        _ => false,
    }
}

/// Two songs share a cover art.
pub open spec fn has_duplicate_icon(songs: Seq<Song>) -> bool {
    exists|i: int, j: int| 0 <= i < j < songs.len() && #[trigger] same_icons(songs[i], songs[j])
}

/// The first fault of a song list, checked pass by pass: names, then cover
/// arts and versions of songs in the game, then shared cover arts, then
/// dates.
pub open spec fn verify_error(songs: Seq<Song>) -> Option<DatabaseError> {
    let n = songs.len() as int;
    match first_where(n, |i: int| songs[i].name@.len() == 0) {
        Some(i) => Some(DatabaseError::NoName(i as usize)),
        None => match first_where(n, |i: int| lacks_icon_or_version(songs[i])) {
            Some(i) => Some(
                if songs[i].icon is None {
                    DatabaseError::NoIcon(i as usize)
                } else if songs[i].standard matches Some(s) && s.version is None {
                    DatabaseError::NoVersion(i as usize, ScoreGeneration::Standard)
                } else {
                    DatabaseError::NoVersion(i as usize, ScoreGeneration::Deluxe)
                },
            ),
            None => if has_duplicate_icon(songs) {
                Some(DatabaseError::DuplicateIcon)
            } else {
                match first_where(n, |i: int| !remove_state_dated(songs[i].remove_state)) {
                    Some(i) => Some(DatabaseError::UndatedRemoval(i as usize)),
                    None => None,
                }
            },
        },
    }
}

/// What a database needs of its songs: names, cover arts and versions of
/// the songs in the game, no shared cover art, dated removals.
pub open spec fn songs_valid(songs: Seq<Song>) -> bool {
    &&& forall|i: int| 0 <= i < songs.len() ==> (#[trigger] songs[i]).name@.len() > 0
    &&& forall|i: int| 0 <= i < songs.len() ==> !lacks_icon_or_version(#[trigger] songs[i])
    &&& !has_duplicate_icon(songs)
    &&& forall|i: int| 0 <= i < songs.len() ==> remove_state_dated((#[trigger] songs[i]).remove_state)
}

fn version_missing(s: &Option<OrdinaryScores>) -> (r: bool)
    ensures
        r == (*s matches Some(x) && x.version is None),
{
    match s {
        Some(x) => x.version.is_none(),
        None => false,
    }
}

fn dated(s: RemoveState) -> (r: bool)
    ensures
        r == remove_state_dated(s),
{
    match s {
        RemoveState::Present => true,
        RemoveState::Removed(x) => MaimaiVersion::of_date(x).is_some(),
        RemoveState::Revived(x, y) => MaimaiVersion::of_date(x).is_some() && MaimaiVersion::of_date(y).is_some(),
    }
}

/// Checks that a song list can be a database (see `verify_error`).
pub fn verify_songs(songs: &Vec<Song>) -> (r: Result<(), DatabaseError>)
    ensures
        match verify_error(songs@) {
            Some(e) => r == Err::<(), DatabaseError>(e),
            None => r is Ok,
        },
        r is Ok ==> songs_valid(songs@),
{
    let ghost s = songs@;
    let ghost n = s.len() as int;
    let ghost p1 = |i: int| s[i].name@.len() == 0;
    let ghost p2 = |i: int| lacks_icon_or_version(s[i]);
    let ghost p4 = |i: int| !remove_state_dated(s[i].remove_state);
    let mut i: usize = 0;
    while i < songs.len()
        invariant
            0 <= i <= songs@.len(),
            s == songs@,
            n == s.len(),
            p1 == (|i: int| s[i].name@.len() == 0),
            forall|j: int| 0 <= j < i ==> !#[trigger] p1(j),
        decreases songs@.len() - i,
    {
        if songs[i].name.len() == 0 {
            proof {
                lemma_first_where(n, p1, i as int);
            }
            return Err(DatabaseError::NoName(i));
        }
        i = i + 1;
    }
    proof {
        assert(!exists|j: int| 0 <= j < n && #[trigger] p1(j));
    }
    let mut i: usize = 0;
    while i < songs.len()
        invariant
            0 <= i <= songs@.len(),
            s == songs@,
            n == s.len(),
            p2 == (|i: int| lacks_icon_or_version(s[i])),
            p1 == (|i: int| s[i].name@.len() == 0),
            first_where(n, p1) is None,
            forall|j: int| 0 <= j < i ==> !#[trigger] p2(j),
        decreases songs@.len() - i,
    {
        let song = &songs[i];
        if !song.removed() {
            if song.icon.is_none() || version_missing(&song.standard) || version_missing(&song.deluxe) {
                proof {
                    lemma_first_where(n, p2, i as int);
                }
                if song.icon.is_none() {
                    return Err(DatabaseError::NoIcon(i));
                } else if version_missing(&song.standard) {
                    return Err(DatabaseError::NoVersion(i, ScoreGeneration::Standard));
                } else {
                    return Err(DatabaseError::NoVersion(i, ScoreGeneration::Deluxe));
                }
            }
        }
        i = i + 1;
    }
    proof {
        assert(!exists|j: int| 0 <= j < n && #[trigger] p2(j));
    }
    let mut j: usize = 0;
    while j < songs.len()
        invariant
            0 <= j <= songs@.len(),
            s == songs@,
            n == s.len(),
            p1 == (|i: int| s[i].name@.len() == 0),
            p2 == (|i: int| lacks_icon_or_version(s[i])),
            first_where(n, p1) is None,
            first_where(n, p2) is None,
            forall|a: int, b: int| 0 <= a < b < j ==> !#[trigger] same_icons(s[a], s[b]),
        decreases songs@.len() - j,
    {
        match &songs[j].icon {
            None => {
                proof {
                    assert forall|a: int, b: int| 0 <= a < b < j + 1 implies !#[trigger] same_icons(s[a], s[b]) by {
                        if b == j {
                            assert(s[b].icon is None);
                        }
                    }
                }
            },
            Some(y) => {
                let mut a: usize = 0;
                while a < j
                    invariant
                        0 <= a <= j < songs@.len(),
                        s == songs@,
                        n == s.len(),
                        p1 == (|i: int| s[i].name@.len() == 0),
                        p2 == (|i: int| lacks_icon_or_version(s[i])),
                        first_where(n, p1) is None,
                        first_where(n, p2) is None,
                        s[j as int].icon == Some(*y),
                        forall|q: int| 0 <= q < a ==> !#[trigger] same_icons(s[q], s[j as int]),
                    decreases j - a,
                {
                    match &songs[a].icon {
                        None => {},
                        Some(x) => {
                            if x.same_as(y) {
                                proof {
                                    assert(s[a as int].icon == Some(*x));
                                    assert(same_icons(s[a as int], s[j as int]));
                                }
                                return Err(DatabaseError::DuplicateIcon);
                            }
                        },
                    }
                    a = a + 1;
                }
                proof {
                    assert forall|a: int, b: int| 0 <= a < b < j + 1 implies !#[trigger] same_icons(s[a], s[b]) by {
                        if b < j {
                        }
                    }
                }
            },
        }
        j = j + 1;
    }
    proof {
        assert(!has_duplicate_icon(s));
    }
    let mut i: usize = 0;
    while i < songs.len()
        invariant
            0 <= i <= songs@.len(),
            s == songs@,
            n == s.len(),
            p4 == (|i: int| !remove_state_dated(s[i].remove_state)),
            p1 == (|i: int| s[i].name@.len() == 0),
            p2 == (|i: int| lacks_icon_or_version(s[i])),
            first_where(n, p1) is None,
            first_where(n, p2) is None,
            !has_duplicate_icon(s),
            forall|j: int| 0 <= j < i ==> !#[trigger] p4(j),
        decreases songs@.len() - i,
    {
        if !dated(songs[i].remove_state) {
            proof {
                lemma_first_where(n, p4, i as int);
            }
            return Err(DatabaseError::UndatedRemoval(i));
        }
        i = i + 1;
    }
    proof {
        assert(!exists|j: int| 0 <= j < n && #[trigger] p4(j));
        assert forall|i: int| 0 <= i < n implies (#[trigger] s[i]).name@.len() > 0 by {
            assert(!p1(i));
        }
        assert forall|i: int| 0 <= i < n implies !lacks_icon_or_version(#[trigger] s[i]) by {
            assert(!p2(i));
        }
        assert forall|i: int| 0 <= i < n implies remove_state_dated((#[trigger] s[i]).remove_state) by {
            assert(!p4(i));
        }
    }
    Ok(())
}


/// The id of the song at position `k`: ten for each song before it, and one
/// more for each of their utage charts.
pub open spec fn song_id(songs: Seq<Song>, k: int) -> int
    decreases k,
{
    if k <= 0 {
        0
    } else {
        song_id(songs, k - 1) + 10 + songs[k - 1].utage_scores@.len()
    }
}

pub open spec fn generation_offset(g: ScoreGeneration) -> int {
    match g {
        ScoreGeneration::Standard => 0,
        ScoreGeneration::Deluxe => 5,
    }
}

pub open spec fn difficulty_offset(d: ScoreDifficulty) -> int {
    match d {
        ScoreDifficulty::Basic => 0,
        ScoreDifficulty::Advanced => 1,
        ScoreDifficulty::Expert => 2,
        ScoreDifficulty::Master => 3,
        ScoreDifficulty::ReMaster => 4,
        ScoreDifficulty::Utage => 0,
    }
}

/// The id of a chart: its song's, plus the generation's and the
/// difficulty's offsets.
pub open spec fn score_id(songs: Seq<Song>, k: int, g: ScoreGeneration, d: ScoreDifficulty) -> int {
    song_id(songs, k) + generation_offset(g) + difficulty_offset(d)
}

proof fn lemma_song_id_step(songs: Seq<Song>, a: int, b: int)
    requires
        0 <= a < b,
    ensures
        song_id(songs, b) >= song_id(songs, a) + 10,
    decreases b - a,
{
    if b > a + 1 {
        lemma_song_id_step(songs, a, b - 1);
    }
}

proof fn lemma_song_id_nonneg(songs: Seq<Song>, k: int)
    ensures
        song_id(songs, k) >= 0,
    decreases k,
{
    if k > 0 {
        lemma_song_id_nonneg(songs, k - 1);
    }
}

/// Different charts (not utage) of a song list have different ids.
pub proof fn lemma_score_ids_distinct(
    songs: Seq<Song>,
    k1: int,
    g1: ScoreGeneration,
    d1: ScoreDifficulty,
    k2: int,
    g2: ScoreGeneration,
    d2: ScoreDifficulty,
)
    requires
        0 <= k1,
        0 <= k2,
        d1 != ScoreDifficulty::Utage,
        d2 != ScoreDifficulty::Utage,
        (k1, g1, d1) != (k2, g2, d2),
    ensures
        score_id(songs, k1, g1, d1) != score_id(songs, k2, g2, d2),
{
    if k1 < k2 {
        lemma_song_id_step(songs, k1, k2);
    } else if k2 < k1 {
        lemma_song_id_step(songs, k2, k1);
    }
}

/// A song of a database, with its position and id.
#[derive(Clone, Copy)]
pub struct SongRef<'s> {
    song: &'s Song,
    index: usize,
    id: usize,
}

impl<'s> SongRef<'s> {
    #[verifier::type_invariant]
    spec fn inv(self) -> bool {
        &&& self.song.name@.len() > 0
        &&& remove_state_dated(self.song.remove_state)
        &&& self.id + 10 + self.song.utage_scores@.len() <= usize::MAX
    }

    pub closed spec fn song_spec(self) -> Song {
        *self.song
    }

    pub closed spec fn index_spec(self) -> usize {
        self.index
    }

    pub closed spec fn id_spec(self) -> usize {
        self.id
    }

    pub fn song(&self) -> (r: &'s Song)
        ensures
            *r == self.song_spec(),
    {
        self.song
    }

    pub fn id(&self) -> (r: usize)
        ensures
            r == self.id_spec(),
    {
        self.id
    }

    /// The most recent name of the song.
    pub fn latest_song_name(&self) -> (r: &'s SongName)
        ensures
            *r == self.song_spec().name@.last().1,
    {
        proof {
            use_type_invariant(self);
        }
        let n = self.song.name.len();
        &self.song.name[n - 1].1
    }

    /// The generation `g` of the song; its id is the song's plus 0 for
    /// standard and 5 for deluxe.
    pub fn scores(&self, g: ScoreGeneration) -> (r: Option<OrdinaryScoresRef<'s>>)
        ensures
            match scores_of(self.song_spec(), g) {
                Some(x) => r matches Some(sr) && sr.song_spec() == *self && sr.generation_spec() == g
                    && sr.scores_spec() == x && sr.id_spec() == self.id_spec() + generation_offset(g),
                None => r is None,
            },
    {
        proof {
            use_type_invariant(self);
        }
        let offset: usize = match g {
            ScoreGeneration::Standard => 0,
            ScoreGeneration::Deluxe => 5,
        };
        match self.song.scores(g) {
            Some(scores) => Some(OrdinaryScoresRef { song: *self, generation: g, scores, id: self.id + offset }),
            None => None,
        }
    }

    /// The generations of the song: standard, then deluxe.
    pub fn scoreses(&self) -> (r: Vec<OrdinaryScoresRef<'s>>)
        ensures
            r@.len() == (if self.song_spec().standard is Some { 1int } else { 0 }) + (if self.song_spec().deluxe is Some {
                1int
            } else {
                0
            }),
            forall|i: int|
                0 <= i < r@.len() ==> (#[trigger] r@[i]).song_spec() == *self && scores_of(
                    self.song_spec(),
                    r@[i].generation_spec(),
                ) == Some(r@[i].scores_spec()) && r@[i].id_spec() == self.id_spec() + generation_offset(
                    r@[i].generation_spec(),
                ),
            r@.len() == 2 ==> r@[0].generation_spec() == ScoreGeneration::Standard && r@[1].generation_spec()
                == ScoreGeneration::Deluxe,
            r@.len() == 1 ==> (r@[0].generation_spec() == ScoreGeneration::Standard <==> self.song_spec().standard is Some),
    {
        let mut r: Vec<OrdinaryScoresRef<'s>> = Vec::new();
        match self.scores(ScoreGeneration::Standard) {
            Some(x) => r.push(x),
            None => {},
        }
        match self.scores(ScoreGeneration::Deluxe) {
            Some(x) => r.push(x),
            None => {},
        }
        r
    }

    /// The utage charts of the song.
    pub fn utage_scores(&self) -> (r: Vec<UtageScoreRef<'s>>)
        ensures
            r@.len() == self.song_spec().utage_scores@.len(),
            forall|i: int|
                0 <= i < r@.len() ==> (#[trigger] r@[i]).song_spec() == *self && r@[i].score_spec()
                    == self.song_spec().utage_scores@[i],
    {
        let mut r: Vec<UtageScoreRef<'s>> = Vec::new();
        let mut i: usize = 0;
        while i < self.song.utage_scores.len()
            invariant
                0 <= i <= self.song.utage_scores@.len(),
                r@.len() == i,
                forall|j: int|
                    0 <= j < i ==> (#[trigger] r@[j]).song_spec() == *self && r@[j].score_spec()
                        == self.song_spec().utage_scores@[j],
            decreases self.song.utage_scores@.len() - i,
        {
            r.push(UtageScoreRef { song: *self, score: &self.song.utage_scores[i] });
            i = i + 1;
        }
        r
    }
}

/// One generation of charts of a song of a database.
#[derive(Clone, Copy)]
pub struct OrdinaryScoresRef<'s> {
    song: SongRef<'s>,
    generation: ScoreGeneration,
    scores: &'s OrdinaryScores,
    id: usize,
}

impl<'s> OrdinaryScoresRef<'s> {
    #[verifier::type_invariant]
    spec fn inv(self) -> bool {
        &&& self.id + 5 <= usize::MAX
        &&& scores_of(self.song.song_spec(), self.generation) == Some(*self.scores)
    }

    pub closed spec fn song_spec(self) -> SongRef<'s> {
        self.song
    }

    pub closed spec fn generation_spec(self) -> ScoreGeneration {
        self.generation
    }

    pub closed spec fn scores_spec(self) -> OrdinaryScores {
        *self.scores
    }

    pub closed spec fn id_spec(self) -> usize {
        self.id
    }

    pub fn song(&self) -> (r: SongRef<'s>)
        ensures
            r == self.song_spec(),
    {
        self.song
    }

    pub fn generation(&self) -> (r: ScoreGeneration)
        ensures
            r == self.generation_spec(),
    {
        self.generation
    }

    pub fn scores(&self) -> (r: &'s OrdinaryScores)
        ensures
            *r == self.scores_spec(),
    {
        self.scores
    }

    pub fn id(&self) -> (r: usize)
        ensures
            r == self.id_spec(),
    {
        self.id
    }

    /// The chart of difficulty `d`; its id is the generation's plus 0 to 4
    /// from BASIC to Re:MASTER.
    pub fn score(&self, d: ScoreDifficulty) -> (r: Option<OrdinaryScoreRef<'s>>)
        ensures
            match score_of(self.scores_spec(), d) {
                Some(x) => r matches Some(sr) && sr.scores_ref_spec() == *self && sr.difficulty_spec() == d
                    && sr.score_spec() == x && sr.id_spec() == self.id_spec() + difficulty_offset(d),
                None => r is None,
            },
    {
        proof {
            use_type_invariant(self);
        }
        let offset: usize = match d {
            ScoreDifficulty::Basic => 0,
            ScoreDifficulty::Advanced => 1,
            ScoreDifficulty::Expert => 2,
            ScoreDifficulty::Master => 3,
            ScoreDifficulty::ReMaster => 4,
            ScoreDifficulty::Utage => {
                return None;
            },
        };
        match self.scores.get_score(d) {
            Some(score) => Some(OrdinaryScoreRef { scores: *self, difficulty: d, score, id: self.id + offset }),
            None => None,
        }
    }

    /// The charts of the generation, BASIC to Re:MASTER.
    pub fn all_scores(&self) -> (r: Vec<OrdinaryScoreRef<'s>>)
        ensures
            forall|i: int|
                0 <= i < r@.len() ==> (#[trigger] r@[i]).scores_ref_spec() == *self && score_of(
                    self.scores_spec(),
                    r@[i].difficulty_spec(),
                ) == Some(r@[i].score_spec()) && r@[i].id_spec() == self.id_spec() + difficulty_offset(
                    r@[i].difficulty_spec(),
                ) && r@[i].difficulty_spec() != ScoreDifficulty::Utage,
            r@.len() == 4 + (if self.scores_spec().re_master is Some { 1int } else { 0 }),
            forall|i: int, j: int|
                0 <= i < j < r@.len() ==> difficulty_offset((#[trigger] r@[i]).difficulty_spec()) < difficulty_offset(
                    (#[trigger] r@[j]).difficulty_spec(),
                ),
    {
        let mut r: Vec<OrdinaryScoreRef<'s>> = Vec::new();
        let ds = [
            ScoreDifficulty::Basic,
            ScoreDifficulty::Advanced,
            ScoreDifficulty::Expert,
            ScoreDifficulty::Master,
            ScoreDifficulty::ReMaster,
        ];
        let mut i: usize = 0;
        while i < 5
            invariant
                0 <= i <= 5,
                ds@ == seq![
                    ScoreDifficulty::Basic,
                    ScoreDifficulty::Advanced,
                    ScoreDifficulty::Expert,
                    ScoreDifficulty::Master,
                    ScoreDifficulty::ReMaster,
                ],
                r@.len() == (if i <= 4 { i as int } else { 4 + (if self.scores_spec().re_master is Some { 1int } else { 0 }) }),
                forall|j: int|
                    0 <= j < r@.len() ==> (#[trigger] r@[j]).scores_ref_spec() == *self && score_of(
                        self.scores_spec(),
                        r@[j].difficulty_spec(),
                    ) == Some(r@[j].score_spec()) && r@[j].id_spec() == self.id_spec() + difficulty_offset(
                        r@[j].difficulty_spec(),
                    ) && r@[j].difficulty_spec() != ScoreDifficulty::Utage,
                forall|j: int| 0 <= j < r@.len() ==> difficulty_offset((#[trigger] r@[j]).difficulty_spec()) < i,
                forall|a: int, b: int|
                    0 <= a < b < r@.len() ==> difficulty_offset((#[trigger] r@[a]).difficulty_spec()) < difficulty_offset(
                        (#[trigger] r@[b]).difficulty_spec(),
                    ),
            decreases 5 - i,
        {
            match self.score(ds[i]) {
                Some(x) => r.push(x),
                None => {},
            }
            i = i + 1;
        }
        r
    }
}

/// One chart of a database.
#[derive(Clone, Copy)]
pub struct OrdinaryScoreRef<'s> {
    scores: OrdinaryScoresRef<'s>,
    difficulty: ScoreDifficulty,
    score: &'s OrdinaryScore,
    id: usize,
}

/// The level of a chart in `version`, from its history (the first entry
/// for that version).
pub open spec fn level_at(levels: Seq<(MaimaiVersion, InternalScoreLevel)>, version: MaimaiVersion) -> Option<
    InternalScoreLevel,
>
    decreases levels.len(),
{
    if levels.len() == 0 {
        None
    } else if levels[0].0 == version {
        Some(levels[0].1)
    } else {
        level_at(levels.drop_first(), version)
    }
}

/// A chart exists in `version`: its generation was added by then, and the
/// song is in the game.
pub open spec fn score_exists_in(song: Song, scores: OrdinaryScores, version: MaimaiVersion) -> bool {
    !(scores.version matches Some(sv) && version_lt(version, sv)) && exists_in_version(song.remove_state, version)
}

impl<'s> OrdinaryScoreRef<'s> {
    pub closed spec fn scores_ref_spec(self) -> OrdinaryScoresRef<'s> {
        self.scores
    }

    pub closed spec fn difficulty_spec(self) -> ScoreDifficulty {
        self.difficulty
    }

    pub closed spec fn score_spec(self) -> OrdinaryScore {
        *self.score
    }

    pub closed spec fn id_spec(self) -> usize {
        self.id
    }

    pub fn scores(&self) -> (r: OrdinaryScoresRef<'s>)
        ensures
            r == self.scores_ref_spec(),
    {
        self.scores
    }

    pub fn difficulty(&self) -> (r: ScoreDifficulty)
        ensures
            r == self.difficulty_spec(),
    {
        self.difficulty
    }

    pub fn score(&self) -> (r: &'s OrdinaryScore)
        ensures
            *r == self.score_spec(),
    {
        self.score
    }

    pub fn id(&self) -> (r: usize)
        ensures
            r == self.id_spec(),
    {
        self.id
    }

    /// The chart as it is in `version`, when it exists then.
    pub fn for_version(&self, version: MaimaiVersion) -> (r: Option<OrdinaryScoreForVersionRef<'s>>)
        ensures
            ({
                let song = self.scores_ref_spec().song_spec().song_spec();
                let scores = self.scores_ref_spec().scores_spec();
                if score_exists_in(song, scores, version) {
                    r == Some(OrdinaryScoreForVersionRef {
                        score: *self,
                        version,
                        level: level_at(self.score_spec().levels@, version),
                    })
                } else {
                    r is None
                }
            }),
    {
        let song_ref = self.scores.song();
        proof {
            use_type_invariant(&song_ref);
        }
        match self.scores.scores().version {
            Some(start) => {
                if version.lt(start) {
                    return None;
                }
            },
            None => {},
        }
        if !song_ref.song().remove_state.exist_for_version(version) {
            return None;
        }
        let level = find_level(&self.score.levels, version);
        Some(OrdinaryScoreForVersionRef { score: *self, version, level })
    }

    /// "name (DX Mas)": the latest name of the song, the generation and the
    /// difficulty.
    pub fn to_string(&self) -> (r: String)
        ensures
            r@ == self.scores_ref_spec().song_spec().song_spec().name@.last().1.0@ + " ("@ + generation_abbrev(
                self.scores_ref_spec().generation_spec(),
            ) + " "@ + difficulty_abbrev(self.difficulty_spec()) + ")"@,
    {
        let mut r = String::new();
        let name = self.scores.song().latest_song_name();
        push_str(&mut r, name.0.as_str());
        push_str(&mut r, " (");
        push_str(&mut r, self.scores.generation().abbrev());
        push_str(&mut r, " ");
        push_str(&mut r, self.difficulty.abbrev());
        push_str(&mut r, ")");
        r
    }
}

pub open spec fn generation_abbrev(g: ScoreGeneration) -> Seq<char> {
    match g {
        ScoreGeneration::Standard => "Std"@,
        ScoreGeneration::Deluxe => "DX"@,
    }
}

/// Each generation is written as its own text, and different values are
/// written differently, so the text names the value.
pub proof fn lemma_generation_abbrev_texts()
    ensures
        generation_abbrev(ScoreGeneration::Standard) == seq!['S', 't', 'd'],
        generation_abbrev(ScoreGeneration::Deluxe) == seq!['D', 'X'],
        forall|a: ScoreGeneration, b: ScoreGeneration| #[trigger] generation_abbrev(a) == #[trigger] generation_abbrev(b) ==> a == b,
{
    reveal_strlit("Std");
    reveal_strlit("DX");
    assert(generation_abbrev(ScoreGeneration::Standard) =~= seq!['S', 't', 'd']);
    assert(generation_abbrev(ScoreGeneration::Deluxe) =~= seq!['D', 'X']);
    assert(generation_abbrev(ScoreGeneration::Deluxe).len() != generation_abbrev(ScoreGeneration::Standard).len());
}

pub open spec fn difficulty_abbrev(d: ScoreDifficulty) -> Seq<char> {
    match d {
        ScoreDifficulty::Basic => "Bas"@,
        ScoreDifficulty::Advanced => "Adv"@,
        ScoreDifficulty::Expert => "Exp"@,
        ScoreDifficulty::Master => "Mas"@,
        ScoreDifficulty::ReMaster => "ReMas"@,
        ScoreDifficulty::Utage => "Utg"@,
    }
}

/// Each difficulty is written as its own text, and different values are
/// written differently, so the text names the value.
pub proof fn lemma_difficulty_abbrev_texts()
    ensures
        difficulty_abbrev(ScoreDifficulty::Basic) == seq!['B', 'a', 's'],
        difficulty_abbrev(ScoreDifficulty::Advanced) == seq!['A', 'd', 'v'],
        difficulty_abbrev(ScoreDifficulty::Expert) == seq!['E', 'x', 'p'],
        difficulty_abbrev(ScoreDifficulty::Master) == seq!['M', 'a', 's'],
        difficulty_abbrev(ScoreDifficulty::ReMaster) == seq!['R', 'e', 'M', 'a', 's'],
        difficulty_abbrev(ScoreDifficulty::Utage) == seq!['U', 't', 'g'],
        forall|a: ScoreDifficulty, b: ScoreDifficulty| #[trigger] difficulty_abbrev(a) == #[trigger] difficulty_abbrev(b) ==> a == b,
{
    reveal_strlit("Bas");
    reveal_strlit("Adv");
    reveal_strlit("Exp");
    reveal_strlit("Mas");
    reveal_strlit("ReMas");
    reveal_strlit("Utg");
    assert(difficulty_abbrev(ScoreDifficulty::Basic) =~= seq!['B', 'a', 's']);
    assert(difficulty_abbrev(ScoreDifficulty::Advanced) =~= seq!['A', 'd', 'v']);
    assert(difficulty_abbrev(ScoreDifficulty::Expert) =~= seq!['E', 'x', 'p']);
    assert(difficulty_abbrev(ScoreDifficulty::Master) =~= seq!['M', 'a', 's']);
    assert(difficulty_abbrev(ScoreDifficulty::ReMaster) =~= seq!['R', 'e', 'M', 'a', 's']);
    assert(difficulty_abbrev(ScoreDifficulty::Utage) =~= seq!['U', 't', 'g']);
    assert(difficulty_abbrev(ScoreDifficulty::Advanced)[0] != difficulty_abbrev(ScoreDifficulty::Basic)[0]);
    assert(difficulty_abbrev(ScoreDifficulty::Expert)[0] != difficulty_abbrev(ScoreDifficulty::Basic)[0]);
    assert(difficulty_abbrev(ScoreDifficulty::Expert)[0] != difficulty_abbrev(ScoreDifficulty::Advanced)[0]);
    assert(difficulty_abbrev(ScoreDifficulty::Master)[0] != difficulty_abbrev(ScoreDifficulty::Basic)[0]);
    assert(difficulty_abbrev(ScoreDifficulty::Master)[0] != difficulty_abbrev(ScoreDifficulty::Advanced)[0]);
    assert(difficulty_abbrev(ScoreDifficulty::Master)[0] != difficulty_abbrev(ScoreDifficulty::Expert)[0]);
    assert(difficulty_abbrev(ScoreDifficulty::ReMaster).len() != difficulty_abbrev(ScoreDifficulty::Basic).len());
    assert(difficulty_abbrev(ScoreDifficulty::ReMaster).len() != difficulty_abbrev(ScoreDifficulty::Advanced).len());
    assert(difficulty_abbrev(ScoreDifficulty::ReMaster).len() != difficulty_abbrev(ScoreDifficulty::Expert).len());
    assert(difficulty_abbrev(ScoreDifficulty::ReMaster).len() != difficulty_abbrev(ScoreDifficulty::Master).len());
    assert(difficulty_abbrev(ScoreDifficulty::Utage)[0] != difficulty_abbrev(ScoreDifficulty::Basic)[0]);
    assert(difficulty_abbrev(ScoreDifficulty::Utage)[0] != difficulty_abbrev(ScoreDifficulty::Advanced)[0]);
    assert(difficulty_abbrev(ScoreDifficulty::Utage)[0] != difficulty_abbrev(ScoreDifficulty::Expert)[0]);
    assert(difficulty_abbrev(ScoreDifficulty::Utage)[0] != difficulty_abbrev(ScoreDifficulty::Master)[0]);
    assert(difficulty_abbrev(ScoreDifficulty::Utage).len() != difficulty_abbrev(ScoreDifficulty::ReMaster).len());
}

fn find_level(levels: &Vec<(MaimaiVersion, InternalScoreLevel)>, version: MaimaiVersion) -> (r: Option<InternalScoreLevel>)
    ensures
        r == level_at(levels@, version),
{
    let mut i: usize = 0;
    proof {
        assert(levels@.subrange(0, levels@.len() as int) =~= levels@);
    }
    while i < levels.len()
        invariant
            0 <= i <= levels@.len(),
            level_at(levels@, version) == level_at(levels@.subrange(i as int, levels@.len() as int), version),
        decreases levels@.len() - i,
    {
        let ghost rest = levels@.subrange(i as int, levels@.len() as int);
        proof {
            assert(rest.drop_first() =~= levels@.subrange(i + 1, levels@.len() as int));
            assert(rest[0] == levels@[i as int]);
        }
        if levels[i].0 == version {
            return Some(levels[i].1);
        }
        i = i + 1;
    }
    proof {
        assert(levels@.subrange(i as int, levels@.len() as int).len() == 0);
    }
    None
}

/// A chart of a database as it is in one version.
#[derive(Clone, Copy)]
pub struct OrdinaryScoreForVersionRef<'s> {
    pub score: OrdinaryScoreRef<'s>,
    pub version: MaimaiVersion,
    pub level: Option<InternalScoreLevel>,
}

/// An utage chart of a song of a database.
#[derive(Clone, Copy)]
pub struct UtageScoreRef<'s> {
    song: SongRef<'s>,
    score: &'s UtageScore,
}

impl<'s> UtageScoreRef<'s> {
    pub closed spec fn song_spec(self) -> SongRef<'s> {
        self.song
    }

    pub closed spec fn score_spec(self) -> UtageScore {
        *self.score
    }

    pub fn song(&self) -> (r: SongRef<'s>)
        ensures
            r == self.song_spec(),
    {
        self.song
    }

    pub fn score(&self) -> (r: &'s UtageScore)
        ensures
            *r == self.score_spec(),
    {
        self.score
    }
}


/// The songs of a list, each with its position and id, once the list has
/// been checked (see `verify_songs`).
pub struct SongDatabase<'s> {
    songs: Vec<SongRef<'s>>,
    source: Ghost<Seq<Song>>,
}

/// The song has the cover art `icon`.
pub open spec fn has_icon(song: Song, icon: SongIcon) -> bool {
    match song.icon {
        Some(a) => icon_key(a.0@) == icon_key(icon.0@),
        None => false,
    }
}

/// The songs whose latest name is `name`, in order.
pub open spec fn refs_named<'s>(refs: Seq<SongRef<'s>>, name: Seq<char>) -> Seq<SongRef<'s>>
    decreases refs.len(),
{
    if refs.len() == 0 {
        Seq::empty()
    } else {
        let prev = refs_named(refs.drop_last(), name);
        if refs.last().song_spec().name@.last().1.0@ == name {
            prev.push(refs.last())
        } else {
            prev
        }
    }
}

impl<'s> SongDatabase<'s> {
    #[verifier::type_invariant]
    spec fn inv(self) -> bool {
        &&& verify_error(self.source@) is None
        &&& songs_valid(self.source@)
        &&& self.songs@.len() == self.source@.len()
        &&& forall|k: int|
            0 <= k < self.songs@.len() ==> (#[trigger] self.songs@[k]).song_spec() == self.source@[k]
                && self.songs@[k].index_spec() == k && self.songs@[k].id_spec() == song_id(self.source@, k)
    }

    /// The song list the database was made from.
    pub closed spec fn source_spec(self) -> Seq<Song> {
        self.source@
    }

    pub closed spec fn refs_spec(self) -> Seq<SongRef<'s>> {
        self.songs@
    }

    /// Makes a database of a song list that passes `verify_songs`; each song
    /// gets ten ids, and one more for each of its utage charts.
    pub fn new(songs: &'s Vec<Song>) -> (r: Result<SongDatabase<'s>, DatabaseError>)
        requires
            song_id(songs@, songs@.len() as int) <= usize::MAX,
        ensures
            match verify_error(songs@) {
                Some(e) => r matches Err(x) && x == e,
                None => r matches Ok(db) && db.source_spec() == songs@ && db.refs_spec().len() == songs@.len()
                    && forall|k: int|
                    0 <= k < songs@.len() ==> (#[trigger] db.refs_spec()[k]).song_spec() == songs@[k]
                        && db.refs_spec()[k].index_spec() == k && db.refs_spec()[k].id_spec() == song_id(songs@, k),
            },
    {
        match verify_songs(songs) {
            Err(e) => {
                return Err(e);
            },
            Ok(()) => {},
        }
        let ghost s = songs@;
        let ghost n = s.len() as int;
        let mut refs: Vec<SongRef<'s>> = Vec::new();
        let mut id: usize = 0;
        let mut k: usize = 0;
        while k < songs.len()
            invariant
                0 <= k <= songs@.len(),
                s == songs@,
                n == s.len(),
                song_id(s, n) <= usize::MAX,
                id == song_id(s, k as int),
                songs_valid(s),
                refs@.len() == k,
                forall|j: int|
                    0 <= j < k ==> (#[trigger] refs@[j]).song_spec() == s[j] && refs@[j].index_spec() == j
                        && refs@[j].id_spec() == song_id(s, j),
            decreases songs@.len() - k,
        {
            let song = &songs[k];
            proof {
                if k + 1 < n {
                    lemma_song_id_step(s, k + 1, n);
                }
                assert(song_id(s, k + 1) == id + 10 + s[k as int].utage_scores@.len());
                lemma_song_id_nonneg(s, k as int);
            }
            let next = id + 10 + song.utage_scores.len();
            refs.push(SongRef { song, index: k, id });
            id = next;
            k = k + 1;
        }
        Ok(SongDatabase { songs: refs, source: Ghost(s) })
    }

    /// Every song, in order.
    pub fn songs(&self) -> (r: &Vec<SongRef<'s>>)
        ensures
            r@ == self.refs_spec(),
            r@.len() == self.source_spec().len(),
            forall|k: int|
                0 <= k < r@.len() ==> (#[trigger] r@[k]).song_spec() == self.source_spec()[k] && r@[k].index_spec()
                    == k && r@[k].id_spec() == song_id(self.source_spec(), k),
    {
        proof {
            use_type_invariant(self);
        }
        &self.songs
    }

    /// The song with the cover art `icon`; songs never share one.
    pub fn song_from_icon(&self, icon: &SongIcon) -> (r: Result<SongRef<'s>, DatabaseError>)
        ensures
            match r {
                Ok(sr) => sr.index_spec() < self.refs_spec().len() && sr == self.refs_spec()[sr.index_spec() as int]
                    && sr.song_spec() == self.source_spec()[sr.index_spec() as int] && sr.id_spec() == song_id(
                    self.source_spec(),
                    sr.index_spec() as int,
                ) && has_icon(sr.song_spec(), *icon),
                Err(e) => e == DatabaseError::NoSongForIcon && forall|k: int|
                    0 <= k < self.source_spec().len() ==> !has_icon(#[trigger] self.source_spec()[k], *icon),
            },
            self.refs_spec().len() == self.source_spec().len(),
            forall|a: int, b: int|
                0 <= a < b < self.source_spec().len() ==> !(has_icon(#[trigger] self.source_spec()[a], *icon)
                    && has_icon(#[trigger] self.source_spec()[b], *icon)),
    {
        proof {
            use_type_invariant(self);
            let s = self.source@;
            assert forall|a: int, b: int| 0 <= a < b < s.len() implies !(has_icon(#[trigger] s[a], *icon) && has_icon(
                #[trigger] s[b],
                *icon,
            )) by {
                assert(!same_icons(s[a], s[b]));
            }
        }
        let mut k: usize = 0;
        while k < self.songs.len()
            invariant
                0 <= k <= self.songs@.len(),
                self.songs@.len() == self.source@.len(),
                forall|j: int|
                    0 <= j < self.songs@.len() ==> (#[trigger] self.songs@[j]).song_spec() == self.source@[j]
                        && self.songs@[j].index_spec() == j && self.songs@[j].id_spec() == song_id(self.source@, j),
                forall|j: int| 0 <= j < k ==> !has_icon(#[trigger] self.source@[j], *icon),
                forall|a: int, b: int|
                    0 <= a < b < self.source@.len() ==> !(has_icon(#[trigger] self.source@[a], *icon) && has_icon(
                        #[trigger] self.source@[b],
                        *icon,
                    )),
            decreases self.songs@.len() - k,
        {
            let sr = self.songs[k];
            let found = match &sr.song().icon {
                Some(a) => a.same_as(icon),
                None => false,
            };
            if found {
                return Ok(sr);
            }
            k = k + 1;
        }
        Err(DatabaseError::NoSongForIcon)
    }

    /// The songs whose latest name is `name`, in order.
    pub fn song_from_name(&self, name: &SongName) -> (r: Vec<SongRef<'s>>)
        ensures
            r@ == refs_named(self.refs_spec(), name.0@),
            self.refs_spec().len() == self.source_spec().len(),
            forall|i: int|
                0 <= i < r@.len() ==> (#[trigger] r@[i]).index_spec() < self.refs_spec().len() && r@[i]
                    == self.refs_spec()[r@[i].index_spec() as int] && r@[i].song_spec()
                    == self.source_spec()[r@[i].index_spec() as int] && r@[i].id_spec() == song_id(
                    self.source_spec(),
                    r@[i].index_spec() as int,
                ),
    {
        proof {
            use_type_invariant(self);
        }
        let mut r: Vec<SongRef<'s>> = Vec::new();
        let mut k: usize = 0;
        while k < self.songs.len()
            invariant
                0 <= k <= self.songs@.len(),
                r@ == refs_named(self.songs@.take(k as int), name.0@),
                self.songs@.len() == self.source@.len(),
                forall|j: int|
                    0 <= j < self.songs@.len() ==> (#[trigger] self.songs@[j]).song_spec() == self.source@[j]
                        && self.songs@[j].index_spec() == j && self.songs@[j].id_spec() == song_id(self.source@, j),
                forall|i: int|
                    0 <= i < r@.len() ==> (#[trigger] r@[i]).index_spec() < self.songs@.len() && r@[i]
                        == self.songs@[r@[i].index_spec() as int],
            decreases self.songs@.len() - k,
        {
            proof {
                assert(self.songs@.take(k + 1).drop_last() =~= self.songs@.take(k as int));
                assert(self.songs@.take(k + 1).last() == self.songs@[k as int]);
            }
            let sr = self.songs[k];
            let latest = sr.latest_song_name();
            if str_eq(latest.0.as_str(), name.0.as_str()) {
                r.push(sr);
            }
            proof {
                assert forall|i: int| 0 <= i < r@.len() implies (#[trigger] r@[i]).index_spec() < self.songs@.len() && r@[i]
                    == self.songs@[r@[i].index_spec() as int] by {
                }
            }
            k = k + 1;
        }
        proof {
            assert(self.songs@.take(self.songs@.len() as int) =~= self.songs@);
        }
        r
    }
}


/// The number of charts of generation `g` of a song that exist in `version`.
pub open spec fn generation_count(song: Song, g: ScoreGeneration, version: MaimaiVersion) -> int {
    match scores_of(song, g) {
        Some(x) => if score_exists_in(song, x, version) {
            4 + if x.re_master is Some {
                1int
            } else {
                0
            }
        } else {
            0
        },
        None => 0,
    }
}

/// The number of charts of the first `k` songs that exist in `version`.
pub open spec fn version_chart_count(songs: Seq<Song>, k: int, version: MaimaiVersion) -> int
    decreases k,
{
    if k <= 0 {
        0
    } else {
        version_chart_count(songs, k - 1, version) + generation_count(songs[k - 1], ScoreGeneration::Standard, version)
            + generation_count(songs[k - 1], ScoreGeneration::Deluxe, version)
    }
}

/// `x` is chart (`k`, `g`, `d`) of the database as it is in `version`.
pub open spec fn is_version_chart<'s>(
    refs: Seq<SongRef<'s>>,
    songs: Seq<Song>,
    x: OrdinaryScoreForVersionRef<'s>,
    version: MaimaiVersion,
    k: int,
    g: ScoreGeneration,
    d: ScoreDifficulty,
) -> bool {
    let sr = x.score.scores_ref_spec();
    &&& 0 <= k < refs.len()
    &&& d != ScoreDifficulty::Utage
    &&& sr.song_spec() == refs[k]
    &&& sr.generation_spec() == g
    &&& scores_of(songs[k], g) == Some(sr.scores_spec())
    &&& sr.id_spec() == refs[k].id_spec() + generation_offset(g)
    &&& x.score.difficulty_spec() == d
    &&& score_of(sr.scores_spec(), d) == Some(x.score.score_spec())
    &&& x.score.id_spec() == score_id(songs, k, g, d)
    &&& score_exists_in(songs[k], sr.scores_spec(), version)
    &&& x.version == version
    &&& x.level == level_at(x.score.score_spec().levels@, version)
}

/// `x` is some chart of the database as it is in `version`.
pub open spec fn is_some_version_chart<'s>(
    refs: Seq<SongRef<'s>>,
    songs: Seq<Song>,
    x: OrdinaryScoreForVersionRef<'s>,
    version: MaimaiVersion,
) -> bool {
    exists|k: int, g: ScoreGeneration, d: ScoreDifficulty| is_version_chart(refs, songs, x, version, k, g, d)
}

impl<'s> SongDatabase<'s> {
    /// Every chart (not utage) that exists in `version`, as it is then, by
    /// increasing id: song by song, standard then deluxe, BASIC to Re:MASTER.
    pub fn all_scores_for_version(&self, version: MaimaiVersion) -> (r: Vec<OrdinaryScoreForVersionRef<'s>>)
        ensures
            r@.len() == version_chart_count(self.source_spec(), self.source_spec().len() as int, version),
            forall|i: int|
                0 <= i < r@.len() ==> is_some_version_chart(self.refs_spec(), self.source_spec(), #[trigger] r@[i], version),
            forall|i: int, j: int|
                0 <= i < j < r@.len() ==> (#[trigger] r@[i]).score.id_spec() < (#[trigger] r@[j]).score.id_spec(),
    {
        proof {
            use_type_invariant(self);
        }
        let ghost refs = self.songs@;
        let ghost src = self.source@;
        let mut r: Vec<OrdinaryScoreForVersionRef<'s>> = Vec::new();
        let mut k: usize = 0;
        while k < self.songs.len()
            invariant
                0 <= k <= self.songs@.len(),
                refs == self.songs@,
                src == self.source@,
                refs.len() == src.len(),
                forall|j: int|
                    0 <= j < refs.len() ==> (#[trigger] refs[j]).song_spec() == src[j] && refs[j].index_spec() == j
                        && refs[j].id_spec() == song_id(src, j),
                r@.len() == version_chart_count(src, k as int, version),
                forall|i: int| 0 <= i < r@.len() ==> is_some_version_chart(refs, src, #[trigger] r@[i], version),
                forall|i: int, j: int|
                    0 <= i < j < r@.len() ==> (#[trigger] r@[i]).score.id_spec() < (#[trigger] r@[j]).score.id_spec(),
                forall|i: int| 0 <= i < r@.len() ==> (#[trigger] r@[i]).score.id_spec() < song_id(src, k as int),
            decreases self.songs@.len() - k,
        {
            let sr = self.songs[k];
            let gs = sr.scoreses();
            let ghost base = song_id(src, k as int);
            proof {
                lemma_song_id_step(src, k as int, k + 1);
            }
            let mut gi: usize = 0;
            while gi < gs.len()
                invariant
                    0 <= gi <= gs@.len(),
                    refs == self.songs@,
                    src == self.source@,
                    refs.len() == src.len(),
                    k < refs.len(),
                    sr == refs[k as int],
                    sr.id_spec() == base,
                    base == song_id(src, k as int),
                    song_id(src, k + 1) >= base + 10,
                    song_id(src, k + 1) == base + 10 + src[k as int].utage_scores@.len(),
                    forall|j: int|
                        0 <= j < refs.len() ==> (#[trigger] refs[j]).song_spec() == src[j] && refs[j].index_spec() == j
                            && refs[j].id_spec() == song_id(src, j),
                    gs@.len() == (if src[k as int].standard is Some { 1int } else { 0 }) + (if src[k as int].deluxe is Some {
                        1int
                    } else {
                        0
                    }),
                    forall|i: int|
                        0 <= i < gs@.len() ==> (#[trigger] gs@[i]).song_spec() == sr && scores_of(
                            sr.song_spec(),
                            gs@[i].generation_spec(),
                        ) == Some(gs@[i].scores_spec()) && gs@[i].id_spec() == sr.id_spec() + generation_offset(
                            gs@[i].generation_spec(),
                        ),
                    gs@.len() == 2 ==> gs@[0].generation_spec() == ScoreGeneration::Standard && gs@[1].generation_spec()
                        == ScoreGeneration::Deluxe,
                    gs@.len() == 1 ==> (gs@[0].generation_spec() == ScoreGeneration::Standard <==> src[k as int].standard is Some),
                    r@.len() == version_chart_count(src, k as int, version) + (if gi >= 1 {
                        generation_count(src[k as int], gs@[0].generation_spec(), version)
                    } else {
                        0
                    }) + (if gi >= 2 {
                        generation_count(src[k as int], gs@[1].generation_spec(), version)
                    } else {
                        0
                    }),
                    forall|i: int| 0 <= i < r@.len() ==> is_some_version_chart(refs, src, #[trigger] r@[i], version),
                    forall|i: int, j: int|
                        0 <= i < j < r@.len() ==> (#[trigger] r@[i]).score.id_spec() < (#[trigger] r@[j]).score.id_spec(),
                    forall|i: int|
                        0 <= i < r@.len() ==> (#[trigger] r@[i]).score.id_spec() < base + (if gi < gs@.len() {
                            generation_offset(gs@[gi as int].generation_spec())
                        } else {
                            10
                        }),
                decreases gs@.len() - gi,
            {
                let scores = gs[gi];
                let all = scores.all_scores();
                let ghost gbase = base + generation_offset(scores.generation_spec());
                let ghost before = r@.len();
                let mut di: usize = 0;
                while di < all.len()
                    invariant
                        0 <= di <= all@.len(),
                        refs == self.songs@,
                        src == self.source@,
                        refs.len() == src.len(),
                        k < refs.len(),
                        sr == refs[k as int],
                        scores.song_spec() == sr,
                        scores_of(src[k as int], scores.generation_spec()) == Some(scores.scores_spec()),
                        scores.id_spec() == gbase,
                        sr.id_spec() == base,
                        base == song_id(src, k as int),
                        refs[k as int].id_spec() == song_id(src, k as int),
                        refs[k as int].song_spec() == src[k as int],
                        gbase == base + generation_offset(scores.generation_spec()),
                        forall|i: int|
                            0 <= i < all@.len() ==> (#[trigger] all@[i]).scores_ref_spec() == scores && score_of(
                                scores.scores_spec(),
                                all@[i].difficulty_spec(),
                            ) == Some(all@[i].score_spec()) && all@[i].id_spec() == scores.id_spec() + difficulty_offset(
                                all@[i].difficulty_spec(),
                            ) && all@[i].difficulty_spec() != ScoreDifficulty::Utage,
                        forall|i: int, j: int|
                            0 <= i < j < all@.len() ==> difficulty_offset((#[trigger] all@[i]).difficulty_spec())
                                < difficulty_offset((#[trigger] all@[j]).difficulty_spec()),
                        all@.len() == 4 + (if scores.scores_spec().re_master is Some { 1int } else { 0 }),
                        r@.len() == before + (if score_exists_in(src[k as int], scores.scores_spec(), version) {
                            di as int
                        } else {
                            0
                        }),
                        forall|i: int| 0 <= i < r@.len() ==> is_some_version_chart(refs, src, #[trigger] r@[i], version),
                        forall|i: int, j: int|
                            0 <= i < j < r@.len() ==> (#[trigger] r@[i]).score.id_spec() < (#[trigger] r@[j]).score.id_spec(),
                        forall|i: int|
                            0 <= i < r@.len() ==> (#[trigger] r@[i]).score.id_spec() < gbase + (if di < all@.len() {
                                difficulty_offset(all@[di as int].difficulty_spec())
                            } else {
                                5
                            }),
                    decreases all@.len() - di,
                {
                    let x = all[di];
                    proof {
                        assert(difficulty_offset(x.difficulty_spec()) <= 4);
                        if di + 1 < all@.len() {
                            assert(difficulty_offset(all@[di as int].difficulty_spec()) < difficulty_offset(
                                all@[di + 1].difficulty_spec(),
                            ));
                        }
                    }
                    match x.for_version(version) {
                        Some(v) => {
                            proof {
                                assert(is_version_chart(
                                    refs,
                                    src,
                                    v,
                                    version,
                                    k as int,
                                    scores.generation_spec(),
                                    x.difficulty_spec(),
                                ));
                            }
                            r.push(v);
                        },
                        None => {},
                    }
                    di = di + 1;
                }
                proof {
                    if gi + 1 < gs@.len() {
                        assert(gs@[0].generation_spec() == ScoreGeneration::Standard);
                        assert(gs@[1].generation_spec() == ScoreGeneration::Deluxe);
                    }
                    assert(generation_count(src[k as int], scores.generation_spec(), version) == (if score_exists_in(
                        src[k as int],
                        scores.scores_spec(),
                        version,
                    ) {
                        all@.len() as int
                    } else {
                        0
                    }));
                }
                gi = gi + 1;
            }
            proof {
                let song = src[k as int];
                if song.standard is Some && song.deluxe is Some {
                } else if song.standard is Some {
                    assert(generation_count(song, ScoreGeneration::Deluxe, version) == 0);
                } else if song.deluxe is Some {
                    assert(generation_count(song, ScoreGeneration::Standard, version) == 0);
                } else {
                    assert(generation_count(song, ScoreGeneration::Deluxe, version) == 0);
                    assert(generation_count(song, ScoreGeneration::Standard, version) == 0);
                }
            }
            k = k + 1;
        }
        r
    }
}


/// A chart of a database for one version: an ordinary one, or an utage
/// chart.
#[derive(Clone, Copy)]
pub enum ScoreForVersionRef<'s> {
    Ordinary(OrdinaryScoreForVersionRef<'s>),
    Utage(UtageScoreRef<'s>),
}

} // verus!
